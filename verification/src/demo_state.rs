//! State of the showcase dashboard: services with their health, pipeline
//! stages, and a log that keeps its newest lines up to a capacity.
use vstd::prelude::*;
use crate::text_ops::{decimal, owned, push_decimal_u64, push_str};

verus! {

/// Health of a service.
#[derive(Debug, Clone, Copy, PartialEq, Eq, Structural)]
pub enum ServiceHealth {
    Healthy,
    Warn,
    Failing,
}

impl ServiceHealth {
    /// The label of the health state.
    pub fn as_str(self) -> (s: &'static str)
        ensures
            s@ == match self {
                ServiceHealth::Healthy => "OK"@,
                ServiceHealth::Warn => "WARN"@,
                ServiceHealth::Failing => "ERR"@,
            },
    {
        match self {
            ServiceHealth::Healthy => "OK",
            ServiceHealth::Warn => "WARN",
            ServiceHealth::Failing => "ERR",
        }
    }
}

/// A service shown on the dashboard.
#[derive(Debug)]
pub struct ServiceInfo {
    /// Service name.
    pub name: String,
    /// Current health.
    pub health: ServiceHealth,
    /// Latency in milliseconds.
    pub latency_ms: u64,
    /// Deployed version.
    pub version: String,
}

/// Status of a pipeline stage.
#[derive(Debug, Clone, Copy, PartialEq, Eq, Structural)]
pub enum StageStatus {
    Pending,
    Running,
    Done,
    Failed,
}

impl StageStatus {
    /// The label of the status.
    pub fn as_str(self) -> (s: &'static str)
        ensures
            s@ == match self {
                StageStatus::Pending => "pending"@,
                StageStatus::Running => "running"@,
                StageStatus::Done => "done"@,
                StageStatus::Failed => "failed"@,
            },
    {
        match self {
            StageStatus::Pending => "pending",
            StageStatus::Running => "running",
            StageStatus::Done => "done",
            StageStatus::Failed => "failed",
        }
    }
}

/// Severity of a log line.
#[derive(Debug, Clone, Copy, PartialEq, Eq, Structural)]
pub enum LogLevel {
    Trace,
    Debug,
    Info,
    Warn,
    Error,
}

impl LogLevel {
    /// The label of the level.
    pub fn as_str(self) -> (s: &'static str)
        ensures
            s@ == match self {
                LogLevel::Trace => "TRACE"@,
                LogLevel::Debug => "DEBUG"@,
                LogLevel::Info => "INFO"@,
                LogLevel::Warn => "WARN"@,
                LogLevel::Error => "ERROR"@,
            },
    {
        match self {
            LogLevel::Trace => "TRACE",
            LogLevel::Debug => "DEBUG",
            LogLevel::Info => "INFO",
            LogLevel::Warn => "WARN",
            LogLevel::Error => "ERROR",
        }
    }
}

/// A line of the dashboard log.
#[derive(Debug)]
pub struct LogLine {
    /// Time since start, in milliseconds.
    pub t_ms: u64,
    /// Severity.
    pub level: LogLevel,
    /// The message.
    pub message: String,
}


impl Clone for LogLine {
    fn clone(&self) -> (l: Self)
        ensures
            l.t_ms == self.t_ms,
            l.level == self.level,
            l.message@ == self.message@,
    {
        LogLine { t_ms: self.t_ms, level: self.level, message: self.message.clone() }
    }
}

/// A stage of the deployment pipeline.
#[derive(Debug)]
pub struct PipelineStage {
    /// Stage name.
    pub name: String,
    /// Current status.
    pub status: StageStatus,
    /// Progress in thousandths (0 to 1000).
    pub progress_permille: u64,
    /// Estimated seconds left, where known.
    pub eta_secs: Option<u64>,
}

impl PipelineStage {
    /// Set the progress, limited to 0..=1000 thousandths.
    pub fn set_progress(&mut self, permille: u64)
        ensures
            final(self).progress_permille == if permille > 1000 { 1000 } else { permille },
            final(self).name == old(self).name,
            final(self).status == old(self).status,
            final(self).eta_secs == old(self).eta_secs,
    {
        self.progress_permille = if permille > 1000 { 1000 } else { permille };
    }
}

/// The label of a health state.
pub open spec fn health_label(h: ServiceHealth) -> Seq<char> {
    match h {
        ServiceHealth::Healthy => "OK"@,
        ServiceHealth::Warn => "WARN"@,
        ServiceHealth::Failing => "ERR"@,
    }
}

/// The label of a stage status.
pub open spec fn status_label(s: StageStatus) -> Seq<char> {
    match s {
        StageStatus::Pending => "pending"@,
        StageStatus::Running => "running"@,
        StageStatus::Done => "done"@,
        StageStatus::Failed => "failed"@,
    }
}

/// The log message describing a service.
pub open spec fn service_message(s: ServiceInfo) -> Seq<char> {
    "svc "@ + s.name@ + ": "@ + health_label(s.health) + " ("@ + decimal(s.latency_ms as nat) + "ms) v"@ + s.version@
}

/// The log message describing a pipeline stage.
pub open spec fn stage_message(s: PipelineStage) -> Seq<char> {
    "stage "@ + s.name@ + " -> "@ + status_label(s.status) + match s.eta_secs {
        Some(e) => " eta="@ + decimal(e as nat) + "s"@,
        None => Seq::empty(),
    }
}

/// The service's log message (see `service_message`).
fn service_line(s: &ServiceInfo) -> (r: String)
    ensures
        r@ == service_message(*s),
{
    let mut r = owned("svc ");
    push_str(&mut r, s.name.as_str());
    push_str(&mut r, ": ");
    push_str(&mut r, s.health.as_str());
    push_str(&mut r, " (");
    push_decimal_u64(&mut r, s.latency_ms);
    push_str(&mut r, "ms) v");
    push_str(&mut r, s.version.as_str());
    r
}

/// The stage's log message (see `stage_message`).
fn stage_line(s: &PipelineStage) -> (r: String)
    ensures
        r@ == stage_message(*s),
{
    let mut r = owned("stage ");
    push_str(&mut r, s.name.as_str());
    push_str(&mut r, " -> ");
    push_str(&mut r, s.status.as_str());
    let ghost head = r@;
    match s.eta_secs {
        Some(e) => {
            push_str(&mut r, " eta=");
            push_decimal_u64(&mut r, e);
            push_str(&mut r, "s");
        },
        None => {},
    }
    assert(r@ =~= stage_message(*s));
    r
}

/// The value of a log line: its time, level and message.
pub open spec fn line_model(l: LogLine) -> (u64, LogLevel, Seq<char>) {
    (l.t_ms, l.level, l.message@)
}

/// The values of log lines.
pub open spec fn lines_model(v: Seq<LogLine>) -> Seq<(u64, LogLevel, Seq<char>)> {
    v.map_values(|l: LogLine| line_model(l))
}

/// The dashboard state: run identity, headline, services, pipeline and the
/// newest log lines.
#[derive(Debug)]
pub struct DemoState {
    /// Run identifier.
    pub run_id: u64,
    /// Random seed of the run.
    pub seed: u64,
    /// Headline text.
    pub headline: String,
    /// Services, in display order.
    pub services: Vec<ServiceInfo>,
    /// Pipeline stages, in order.
    pub pipeline: Vec<PipelineStage>,
    /// Log lines, oldest first.
    pub logs: Vec<LogLine>,
    /// How many log lines are kept.
    pub log_capacity: usize,
}

/// The log after appending a line: the newest `capacity` lines.
pub open spec fn appended_log(
    logs: Seq<(u64, LogLevel, Seq<char>)>,
    line: (u64, LogLevel, Seq<char>),
    capacity: nat,
) -> Seq<(u64, LogLevel, Seq<char>)> {
    let all = logs.push(line);
    if all.len() > capacity { all.skip(all.len() - capacity) } else { all }
}

impl DemoState {
    /// The log never holds more lines than its capacity, which is at least 1.
    pub open spec fn well_formed(self) -> bool {
        &&& self.log_capacity >= 1
        &&& self.logs@.len() <= self.log_capacity
    }

    /// The log's lines, oldest first.
    pub open spec fn log(self) -> Seq<(u64, LogLevel, Seq<char>)> {
        lines_model(self.logs@)
    }

    /// How many log lines are kept.
    pub open spec fn capacity(self) -> nat {
        self.log_capacity as nat
    }

    /// An empty state keeping 200 log lines.
    pub fn new(run_id: u64, seed: u64) -> (s: Self)
        ensures
            s.run_id == run_id,
            s.seed == seed,
            s.headline@.len() == 0,
            s.services@.len() == 0,
            s.pipeline@.len() == 0,
            s.log().len() == 0,
            s.capacity() == 200,
            s.well_formed(),
    {
        let s = DemoState {
            run_id,
            seed,
            headline: String::new(),
            services: Vec::new(),
            pipeline: Vec::new(),
            logs: Vec::new(),
            log_capacity: 200,
        };
        assert(s.log() =~= Seq::empty());
        s
    }

    /// An empty state keeping `log_capacity` log lines (at least 1).
    pub fn with_log_capacity(run_id: u64, seed: u64, log_capacity: usize) -> (s: Self)
        ensures
            s.run_id == run_id,
            s.seed == seed,
            s.headline@.len() == 0,
            s.services@.len() == 0,
            s.pipeline@.len() == 0,
            s.log().len() == 0,
            s.capacity() == if log_capacity > 1 { log_capacity as nat } else { 1 },
            s.well_formed(),
    {
        let s = DemoState {
            run_id,
            seed,
            headline: String::new(),
            services: Vec::new(),
            pipeline: Vec::new(),
            logs: Vec::new(),
            log_capacity: if log_capacity > 1 { log_capacity } else { 1 },
        };
        assert(s.log() =~= Seq::empty());
        s
    }

    /// Append a log line stamped `t_ms` milliseconds after the start,
    /// dropping the oldest lines beyond the capacity.
    pub fn push_log(&mut self, level: LogLevel, message: &str, t_ms: u64)
        requires
            old(self).well_formed(),
        ensures
            final(self).well_formed(),
            final(self).log() == appended_log(old(self).log(), (t_ms, level, message@), old(self).capacity()),
            final(self).log().len() <= final(self).capacity(),
            final(self).capacity() == old(self).capacity(),
            final(self).run_id == old(self).run_id,
            final(self).seed == old(self).seed,
            final(self).headline == old(self).headline,
            final(self).services == old(self).services,
            final(self).pipeline == old(self).pipeline,
    {
        let ghost before = lines_model(self.logs@);
        let ghost cap = self.log_capacity as nat;
        let mut logs: Vec<LogLine> = Vec::new();
        std::mem::swap(&mut logs, &mut self.logs);
        logs.push(LogLine { t_ms, level, message: owned(message) });
        let ghost all = lines_model(logs@);
        assert(all =~= before.push((t_ms, level, message@)));
        let n = logs.len();
        let drop = if n > self.log_capacity { n - self.log_capacity } else { 0 };
        let mut kept: Vec<LogLine> = Vec::new();
        let mut i: usize = drop;
        while i < n
            invariant
                drop <= i <= n,
                n == logs@.len(),
                all == lines_model(logs@),
                lines_model(kept@) == all.subrange(drop as int, i as int),
            decreases n - i,
        {
            let l = logs[i].clone();
            let ghost prev = kept@;
            kept.push(l);
            assert(lines_model(kept@) =~= lines_model(prev).push(all[i as int]));
            i += 1;
            assert(lines_model(kept@) =~= all.subrange(drop as int, i as int));
        }
        self.logs = kept;
        assert(lines_model(self.logs@) =~= appended_log(before, (t_ms, level, message@), cap));
    }

    /// A copy of the log lines, oldest first.
    pub fn logs_snapshot(&self) -> (v: Vec<LogLine>)
        ensures
            lines_model(v@) == self.log(),
    {
        let mut v: Vec<LogLine> = Vec::new();
        let mut i: usize = 0;
        while i < self.logs.len()
            invariant
                i <= self.logs@.len(),
                lines_model(v@) == lines_model(self.logs@).take(i as int),
            decreases self.logs.len() - i,
        {
            let ghost prev = v@;
            v.push(self.logs[i].clone());
            assert(lines_model(v@) =~= lines_model(prev).push(line_model(self.logs@[i as int])));
            i += 1;
            assert(lines_model(v@) =~= lines_model(self.logs@).take(i as int));
        }
        assert(lines_model(self.logs@).take(self.logs@.len() as int) =~= lines_model(self.logs@));
        v
    }
}

/// The label of a log level.
pub open spec fn level_label(l: LogLevel) -> Seq<char> {
    match l {
        LogLevel::Trace => "TRACE"@,
        LogLevel::Debug => "DEBUG"@,
        LogLevel::Info => "INFO"@,
        LogLevel::Warn => "WARN"@,
        LogLevel::Error => "ERROR"@,
    }
}

/// Whether a service has these values.
pub open spec fn service_is(s: ServiceInfo, name: Seq<char>, health: ServiceHealth, latency_ms: u64, version: Seq<char>) -> bool {
    s.name@ == name && s.health == health && s.latency_ms == latency_ms && s.version@ == version
}

/// Whether a stage has these values.
pub open spec fn stage_is(s: PipelineStage, name: Seq<char>, status: StageStatus, permille: u64, eta: Option<u64>) -> bool {
    s.name@ == name && s.status == status && s.progress_permille == permille && s.eta_secs == eta
}

/// The levels of the sample log lines, in order.
pub open spec fn sample_levels() -> Seq<LogLevel> {
    seq![LogLevel::Trace, LogLevel::Debug, LogLevel::Info, LogLevel::Warn, LogLevel::Error]
}

/// The log of the seeded state, every line stamped `t_ms`: a line per
/// service, a line per stage, and a sample line per level.
pub open spec fn seeded_log(services: Seq<ServiceInfo>, stages: Seq<PipelineStage>, t_ms: u64) -> Seq<(u64, LogLevel, Seq<char>)> {
    Seq::new(3, |i: int| (t_ms, LogLevel::Info, service_message(services[i])))
        + Seq::new(4, |i: int| (t_ms, LogLevel::Debug, stage_message(stages[i])))
        + Seq::new(5, |i: int| (t_ms, sample_levels()[i], level_label(sample_levels()[i]) + ": demo log line"@))
}

impl DemoState {
    /// The sample state: three services (healthy api, warning worker,
    /// failing db), four stages (plan done, deploy at 42% with 12 s left,
    /// verify pending, cleanup failed) and their log lines, stamped `t_ms`.
    pub fn demo_seeded(run_id: u64, seed: u64, t_ms: u64) -> (s: Self)
        ensures
            s.run_id == run_id,
            s.seed == seed,
            s.headline@ == "Booting Nebula Deploy\u{2026}"@,
            s.services@.len() == 3,
            service_is(s.services@[0], "api"@, ServiceHealth::Healthy, 12, "1.2.3"@),
            service_is(s.services@[1], "worker"@, ServiceHealth::Warn, 48, "1.2.3"@),
            service_is(s.services@[2], "db"@, ServiceHealth::Failing, 0, "13.4"@),
            s.pipeline@.len() == 4,
            stage_is(s.pipeline@[0], "plan"@, StageStatus::Done, 1000, None),
            stage_is(s.pipeline@[1], "deploy"@, StageStatus::Running, 420, Some(12)),
            stage_is(s.pipeline@[2], "verify"@, StageStatus::Pending, 0, None),
            stage_is(s.pipeline@[3], "cleanup"@, StageStatus::Failed, 0, None),
            s.log() == seeded_log(s.services@, s.pipeline@, t_ms),
            s.capacity() == 200,
            s.well_formed(),
    {
        let mut state = DemoState::with_log_capacity(run_id, seed, 200);
        state.headline = owned("Booting Nebula Deploy\u{2026}");
        state.services = vec![
            ServiceInfo { name: owned("api"), health: ServiceHealth::Healthy, latency_ms: 12, version: owned("1.2.3") },
            ServiceInfo { name: owned("worker"), health: ServiceHealth::Warn, latency_ms: 48, version: owned("1.2.3") },
            ServiceInfo { name: owned("db"), health: ServiceHealth::Failing, latency_ms: 0, version: owned("13.4") },
        ];
        let mut i: usize = 0;
        while i < 3
            invariant
                i <= 3,
                state.services@.len() == 3,
                state.well_formed(),
                state.capacity() == 200,
                state.log() == Seq::new(i as nat, |k: int| (t_ms, LogLevel::Info, service_message(state.services@[k]))),
                state.run_id == run_id,
                state.seed == seed,
                state.headline@ == "Booting Nebula Deploy\u{2026}"@,
                service_is(state.services@[0], "api"@, ServiceHealth::Healthy, 12, "1.2.3"@),
                service_is(state.services@[1], "worker"@, ServiceHealth::Warn, 48, "1.2.3"@),
                service_is(state.services@[2], "db"@, ServiceHealth::Failing, 0, "13.4"@),
            decreases 3 - i,
        {
            let line = service_line(&state.services[i]);
            state.push_log(LogLevel::Info, line.as_str(), t_ms);
            i += 1;
            assert(state.log() =~= Seq::new(i as nat, |k: int| (t_ms, LogLevel::Info, service_message(state.services@[k]))));
        }
        let mut plan = PipelineStage { name: owned("plan"), status: StageStatus::Done, progress_permille: 1000, eta_secs: None };
        plan.set_progress(1000);
        let mut deploy = PipelineStage {
            name: owned("deploy"),
            status: StageStatus::Running,
            progress_permille: 0,
            eta_secs: Some(12),
        };
        deploy.set_progress(420);
        let verify = PipelineStage { name: owned("verify"), status: StageStatus::Pending, progress_permille: 0, eta_secs: None };
        let cleanup = PipelineStage {
            name: owned("cleanup"),
            status: StageStatus::Failed,
            progress_permille: 0,
            eta_secs: None,
        };
        state.pipeline = vec![plan, deploy, verify, cleanup];
        let ghost services_part = state.log();
        let ghost svc = state.services@;
        let ghost pl = state.pipeline@;
        assert(stage_is(pl[0], "plan"@, StageStatus::Done, 1000, None));
        assert(stage_is(pl[1], "deploy"@, StageStatus::Running, 420, Some(12)));
        let mut j: usize = 0;
        while j < 4
            invariant
                j <= 4,
                state.pipeline@.len() == 4,
                state.well_formed(),
                state.capacity() == 200,
                state.run_id == run_id,
                state.seed == seed,
                state.headline@ == "Booting Nebula Deploy\u{2026}"@,
                state.services@ == svc,
                state.pipeline@ == pl,
                services_part == Seq::new(3, |k: int| (t_ms, LogLevel::Info, service_message(svc[k]))),
                services_part.len() == 3,
                state.log() == services_part + Seq::new(j as nat, |k: int| (t_ms, LogLevel::Debug, stage_message(state.pipeline@[k]))),
            decreases 4 - j,
        {
            let line = stage_line(&state.pipeline[j]);
            state.push_log(LogLevel::Debug, line.as_str(), t_ms);
            j += 1;
            assert(state.log() =~= services_part + Seq::new(j as nat, |k: int| (t_ms, LogLevel::Debug, stage_message(state.pipeline@[k]))));
        }
        let ghost first_parts = state.log();
        let levels = [LogLevel::Trace, LogLevel::Debug, LogLevel::Info, LogLevel::Warn, LogLevel::Error];
        assert(levels@ == sample_levels());
        let mut k: usize = 0;
        while k < 5
            invariant
                k <= 5,
                levels@ == sample_levels(),
                state.well_formed(),
                state.capacity() == 200,
                state.run_id == run_id,
                state.seed == seed,
                state.headline@ == "Booting Nebula Deploy\u{2026}"@,
                state.services@ == svc,
                state.pipeline@ == pl,
                services_part == Seq::new(3, |k: int| (t_ms, LogLevel::Info, service_message(svc[k]))),
                first_parts == services_part + Seq::new(4, |m: int| (t_ms, LogLevel::Debug, stage_message(pl[m]))),
                first_parts.len() == 7,
                state.log() == first_parts + Seq::new(k as nat, |m: int| (t_ms, sample_levels()[m], level_label(sample_levels()[m]) + ": demo log line"@)),
            decreases 5 - k,
        {
            let level = levels[k];
            let mut msg = owned(level.as_str());
            push_str(&mut msg, ": demo log line");
            state.push_log(level, msg.as_str(), t_ms);
            k += 1;
            assert(state.log() =~= first_parts + Seq::new(k as nat, |m: int| (t_ms, sample_levels()[m], level_label(sample_levels()[m]) + ": demo log line"@)));
        }
        assert(state.log() =~= seeded_log(state.services@, state.pipeline@, t_ms));
        state
    }
}

/// Law: however many lines are appended, the log keeps at most its
/// capacity, and the line appended last is its newest.
pub proof fn law_log_keeps_newest(
    logs: Seq<(u64, LogLevel, Seq<char>)>,
    line: (u64, LogLevel, Seq<char>),
    capacity: nat,
)
    requires
        capacity >= 1,
        logs.len() <= capacity,
    ensures
        appended_log(logs, line, capacity).len() <= capacity,
        appended_log(logs, line, capacity).last() == line,
        appended_log(logs, line, capacity).len() == if logs.len() < capacity { logs.len() + 1 } else {
            capacity
        },
{
}
} // verus!
