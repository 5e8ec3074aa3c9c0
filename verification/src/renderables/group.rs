//! Group - several rendered items combined into one.
//!
//! Each item is kept as the segments it rendered to. The group renders its
//! items in order, each on its own lines, or run together when `fit` is set.
use vstd::prelude::*;
use crate::renderables::rule::newline_seg;
use crate::segment::{push_seg, push_segs, segs_model, Segment, SegmentModel};

verus! {

/// A sequence of rendered items.
#[derive(Debug)]
pub struct Group {
    /// The segments of each item, in order.
    children: Vec<Vec<Segment>>,
    /// Whether items run together instead of starting new lines.
    fit: bool,
}

/// The value of a group: the segments of each item, and whether they fit
/// together.
pub struct GroupModel {
    pub children: Seq<Seq<SegmentModel>>,
    pub fit: bool,
}

impl View for Group {
    type V = GroupModel;

    closed spec fn view(&self) -> GroupModel {
        GroupModel { children: self.children@.map_values(|c: Vec<Segment>| segs_model(c@)), fit: self.fit }
    }
}

/// The first `k` items rendered: a newline between items unless they fit
/// together.
pub open spec fn group_segs(children: Seq<Seq<SegmentModel>>, fit: bool, k: nat) -> Seq<SegmentModel>
    decreases k,
{
    if k == 0 || k > children.len() {
        Seq::empty()
    } else {
        group_segs(children, fit, (k - 1) as nat) + (if k > 1 && !fit { seq![newline_seg()] } else {
            Seq::empty()
        }) + children[k - 1]
    }
}

impl Group {
    /// An empty group.
    pub fn new() -> (g: Self)
        ensures
            g@.children.len() == 0,
            !g@.fit,
    {
        let g = Group { children: Vec::new(), fit: false };
        assert(g@.children =~= Seq::<Seq<SegmentModel>>::empty());
        g
    }

    /// Add an item's segments.
    pub fn push(self, segments: Vec<Segment>) -> (g: Self)
        ensures
            g@ == (GroupModel { children: self@.children.push(segs_model(segments@)), fit: self@.fit }),
    {
        let ghost before = self@.children;
        let ghost seg = segs_model(segments@);
        let mut g = self;
        g.children.push(segments);
        assert(g@.children =~= before.push(seg));
        g
    }

    /// Add an item of plain text.
    pub fn push_text(self, text: &str) -> (g: Self)
        ensures
            g@ == (GroupModel {
                children: self@.children.push(seq![crate::segment::plain_model(text@, None)]),
                fit: self@.fit,
            }),
    {
        let mut v: Vec<Segment> = Vec::new();
        push_seg(&mut v, Segment::new(text, None));
        assert(segs_model(v@) =~= seq![crate::segment::plain_model(text@, None)]);
        self.push(v)
    }

    /// Set whether items run together.
    pub fn fit(self, fit: bool) -> (g: Self)
        ensures
            g@ == (GroupModel { fit, ..self@ }),
    {
        Group { fit, ..self }
    }

    /// Whether the group has no items.
    pub fn is_empty(&self) -> (r: bool)
        ensures
            r == (self@.children.len() == 0),
    {
        self.children.len() == 0
    }

    /// The number of items.
    pub fn len(&self) -> (n: usize)
        ensures
            n == self@.children.len(),
    {
        self.children.len()
    }

    /// The items' segments in order (see `group_segs`).
    pub fn render(&self) -> (r: Vec<Segment>)
        ensures
            segs_model(r@) == group_segs(self@.children, self@.fit, self@.children.len()),
    {
        let ghost cs = self@.children;
        let mut out: Vec<Segment> = Vec::new();
        let mut i: usize = 0;
        while i < self.children.len()
            invariant
                i <= self.children@.len(),
                cs == self@.children,
                segs_model(out@) == group_segs(cs, self@.fit, i as nat),
            decreases self.children.len() - i,
        {
            let ghost before = segs_model(out@);
            if i > 0 && !self.fit {
                push_seg(&mut out, Segment::line());
            }
            let ghost mid = segs_model(out@);
            assert(mid =~= before + (if i + 1 > 1 && !self@.fit { seq![newline_seg()] } else {
                Seq::<SegmentModel>::empty()
            }));
            push_segs(&mut out, crate::segment::copy_line(&self.children[i]));
            assert(cs[i as int] == segs_model(self.children@[i as int]@));
            i += 1;
        }
        out
    }
}

/// A group of plain-text items.
pub fn group(items: Vec<&str>) -> (g: Group)
    ensures
        g@.children.len() == items@.len(),
        forall|i: int| 0 <= i < items@.len() ==> g@.children[i] == seq![crate::segment::plain_model(items@[i]@, None)],
        !g@.fit,
{
    let mut g = Group::new();
    let mut i: usize = 0;
    while i < items.len()
        invariant
            i <= items@.len(),
            g@.children.len() == i,
            forall|k: int| 0 <= k < i ==> g@.children[k] == seq![crate::segment::plain_model(items@[k]@, None)],
            !g@.fit,
        decreases items.len() - i,
    {
        g = g.push_text(items[i]);
        i += 1;
    }
    g
}

} // verus!
