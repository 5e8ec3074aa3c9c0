//! The scenes of the demonstration program: their names and summaries.
use vstd::prelude::*;

verus! {

/// The live dashboard scene.
#[derive(Debug, Clone, Copy, PartialEq, Eq, Default, Structural)]
pub struct DashboardScene;

/// The export scene.
#[derive(Debug, Clone, Copy, PartialEq, Eq, Default, Structural)]
pub struct ExportScene;

/// The layout scene.
#[derive(Debug, Clone, Copy, PartialEq, Eq, Default, Structural)]
pub struct LayoutScene;

impl DashboardScene {
    /// The scene.
    pub fn new() -> (s: Self) {
        DashboardScene
    }

    /// The name the scene is chosen by.
    pub fn name(&self) -> (s: &'static str)
        ensures
            s@ == "dashboard"@,
    {
        "dashboard"
    }

    /// What the scene shows.
    pub fn summary(&self) -> (s: &'static str)
        ensures
            s@ == "Live split-screen dashboard (services + pipeline + logs)."@,
    {
        "Live split-screen dashboard (services + pipeline + logs)."
    }
}

impl ExportScene {
    /// The scene.
    pub fn new() -> (s: Self) {
        ExportScene
    }

    /// The name the scene is chosen by.
    pub fn name(&self) -> (s: &'static str)
        ensures
            s@ == "export"@,
    {
        "export"
    }

    /// What the scene shows.
    pub fn summary(&self) -> (s: &'static str)
        ensures
            s@ == "Export HTML/SVG bundle with viewing instructions."@,
    {
        "Export HTML/SVG bundle with viewing instructions."
    }
}

impl LayoutScene {
    /// The scene.
    pub fn new() -> (s: Self) {
        LayoutScene
    }

    /// The name the scene is chosen by.
    pub fn name(&self) -> (s: &'static str)
        ensures
            s@ == "layout"@,
    {
        "layout"
    }

    /// What the scene shows.
    pub fn summary(&self) -> (s: &'static str)
        ensures
            s@ == "Layout tools: Columns, Align, and Padding for polished UI composition."@,
    {
        "Layout tools: Columns, Align, and Padding for polished UI composition."
    }
}

} // verus!
