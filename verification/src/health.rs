//! The health report: server status, uptime and what the server holds.

use vstd::prelude::*;
use crate::ids::{uuid_string, uuid_text};
use crate::state::{AgentEntryV, AppState};

verus! {

broadcast use vstd::std_specs::vec::group_vec_axioms;

/// A monotonic clock reading (`std::time::Instant`), carried through as an
/// opaque value.
#[verifier::external_type_specification]
#[verifier::external_body]
pub struct ExInstant(std::time::Instant);

/// Calls `std::time::Instant::now`. Nothing is stated of the reading.
#[verifier::external_body]
fn instant_now() -> std::time::Instant {
    std::time::Instant::now()
}

/// Calls `std::time::Instant::elapsed`: the time since `t` (zero where `t`
/// lies in the future). Nothing is stated of the value, which depends on the
/// time of the call.
#[verifier::external_body]
fn elapsed_since(t: &std::time::Instant) -> std::time::Duration {
    t.elapsed()
}

/// Calls `std::time::Duration::as_secs`: the whole seconds of `d`. Nothing
/// is stated of the value, since the duration is opaque here.
#[verifier::external_body]
fn whole_secs(d: &std::time::Duration) -> u64 {
    d.as_secs()
}

/// When the server started, once that has been recorded.
pub struct ServerClock {
    pub start: Option<std::time::Instant>,
}

impl ServerClock {
    /// A clock with no start time recorded.
    pub fn new() -> (r: Self)
        ensures
            r.start is None,
    {
        ServerClock { start: None }
    }

    /// Whole seconds since the recorded start; 0 before a start is recorded.
    pub fn uptime_secs(&self) -> (r: u64)
        ensures
            self.start is None ==> r == 0,
    {
        match &self.start {
            Some(t) => {
                let d = elapsed_since(t);
                whole_secs(&d)
            },
            None => 0,
        }
    }
}

/// Records the start time for the uptime the health report gives. Only the
/// first call records; later calls keep the first reading.
pub fn record_start_time(clock: &mut ServerClock)
    ensures
        final(clock).start is Some,
        old(clock).start is Some ==> final(clock).start == old(clock).start,
{
    if clock.start.is_none() {
        clock.start = Some(instant_now());
    }
}

/// The health of one model-backed agent.
#[derive(Debug)]
pub struct ModelHealth {
    pub alias: String,
    pub agent_id: String,
    pub loaded: bool,
}

pub struct ModelHealthV {
    pub alias: Seq<char>,
    pub agent_id: Seq<char>,
    pub loaded: bool,
}

impl View for ModelHealth {
    type V = ModelHealthV;

    open spec fn view(&self) -> ModelHealthV {
        ModelHealthV { alias: self.alias@, agent_id: self.agent_id@, loaded: self.loaded }
    }
}

/// How the health report shows a registered agent.
pub open spec fn model_health_of(a: AgentEntryV) -> ModelHealthV {
    ModelHealthV { alias: a.model_alias, agent_id: uuid_text(a.agent.agent_id), loaded: a.is_loaded }
}

/// Server health response.
#[derive(Debug)]
pub struct HealthResponse {
    pub status: &'static str,
    pub version: &'static str,
    pub acp_spec_version: &'static str,
    pub uptime_seconds: u64,
    pub agents_registered: usize,
    pub threads_active: usize,
    pub runs_active: usize,
    pub models: Vec<ModelHealth>,
}

/// The ACP specification version this server implements.
pub open spec fn acp_spec_version() -> Seq<char> {
    "0.2.3"@
}

impl AppState {
    /// The health report for the given server version and uptime.
    pub fn health_report(&self, version: &'static str, uptime_seconds: u64) -> (r: HealthResponse)
        ensures
            r.status@ == "ok"@,
            r.version@ == version@,
            r.acp_spec_version@ == acp_spec_version(),
            r.uptime_seconds == uptime_seconds,
            r.agents_registered == self@.agents.len(),
            r.threads_active == self@.threads.len(),
            r.runs_active == self@.runs.len(),
            r.models@.len() == self@.agents.len(),
            forall|i: int| 0 <= i < r.models@.len() ==> (#[trigger] r.models@[i])@ == model_health_of(self@.agents[i]),
    {
        let mut models: Vec<ModelHealth> = Vec::new();
        let mut i: usize = 0;
        while i < self.agents.len()
            invariant
                i <= self.agents.len(),
                models@.len() == i,
                forall|j: int| 0 <= j < i ==> (#[trigger] models@[j])@ == model_health_of(self@.agents[j]),
            decreases self.agents.len() - i,
        {
            let a = &self.agents[i];
            models.push(ModelHealth {
                alias: a.model_alias.clone(),
                agent_id: uuid_string(a.agent.agent_id),
                loaded: a.is_loaded,
            });
            i = i + 1;
        }
        HealthResponse {
            status: "ok",
            version,
            acp_spec_version: "0.2.3",
            uptime_seconds,
            agents_registered: self.agents.len(),
            threads_active: self.threads.len(),
            runs_active: self.runs.len(),
            models,
        }
    }

    /// GET /health: the health report, with the uptime read from `clock`.
    pub fn health_check(&self, clock: &ServerClock, version: &'static str) -> (r: HealthResponse)
        ensures
            r.status@ == "ok"@,
            r.version@ == version@,
            r.acp_spec_version@ == acp_spec_version(),
            clock.start is None ==> r.uptime_seconds == 0,
            r.agents_registered == self@.agents.len(),
            r.threads_active == self@.threads.len(),
            r.runs_active == self@.runs.len(),
            r.models@.len() == self@.agents.len(),
            forall|i: int| 0 <= i < r.models@.len() ==> (#[trigger] r.models@[i])@ == model_health_of(self@.agents[i]),
    {
        let uptime = clock.uptime_secs();
        self.health_report(version, uptime)
    }
}

} // verus!
