//! The decision engine and the scheduler's event step.
//!
//! Everything the system decides — applying a schedule request, reacting
//! to a timer fire, recording a dispatch outcome — is a function from the
//! registry and one event to the next registry state and one action.  The
//! surrounding process performs the actions (send an envelope, answer a
//! caller) and feeds the outcomes back in; the decisions themselves are
//! verified here.  In particular a fire never changes the registry, so no
//! failed run can take the schedule down.

use vstd::prelude::*;

use crate::byteseq::append_bytes;
use crate::codec::Command;
use crate::registry::JobDef;
use crate::registry::JobRegistry;
use crate::schedule::Schedule;
use crate::schedule::ScheduleError;
use crate::schedule::ScheduleRequest;
use crate::schedule::validate_schedule;
use crate::thresholds::Recipe;
use crate::thresholds::ThresholdSet;

verus! {

/// Why no temperature reading is available: the fetch failed, or the
/// response did not carry a numeric minimum temperature.
#[derive(Clone, Copy, PartialEq, Eq, Structural, Debug)]
pub enum DataError {
    FetchFailed,
    FieldMissing,
}

/// Why a dispatched command did not complete: the connection could not
/// be established, or the exchange on it failed.
#[derive(Clone, Copy, PartialEq, Eq, Structural, Debug)]
pub enum DispatchError {
    Connection,
    Protocol,
}

/// Which required configuration value is absent at startup.
#[derive(Clone, Copy, PartialEq, Eq, Structural, Debug)]
pub enum ConfigError {
    MissingToken,
    MissingUrl,
}

/// Checks the two required startup values.  Exactly the configurations
/// with a non-empty token and a non-empty hub address pass; a failure
/// names the first value missing.
pub fn validate_config(token: &Vec<u8>, hub_url: &Vec<u8>) -> (r: Result<(), ConfigError>)
    ensures
        r == if token@.len() == 0 {
            Err::<(), ConfigError>(ConfigError::MissingToken)
        } else if hub_url@.len() == 0 {
            Err::<(), ConfigError>(ConfigError::MissingUrl)
        } else {
            Ok::<(), ConfigError>(())
        },
{
    if token.len() == 0 {
        Err(ConfigError::MissingToken)
    } else if hub_url.len() == 0 {
        Err(ConfigError::MissingUrl)
    } else {
        Ok(())
    }
}

/// The one job name the schedule operations manage.
pub open spec fn run_recipes_name() -> Seq<u8> {
    seq!['r' as u8, 'u' as u8, 'n' as u8, '_' as u8, 'r' as u8, 'e' as u8, 'c' as u8, 'i' as u8, 'p' as u8, 'e' as u8, 's' as u8]
}

pub fn run_recipes_name_bytes() -> (r: Vec<u8>)
    ensures
        r@ == run_recipes_name(),
{
    let mut r: Vec<u8> = Vec::new();
    r.push('r' as u8);
    r.push('u' as u8);
    r.push('n' as u8);
    r.push('_' as u8);
    r.push('r' as u8);
    r.push('e' as u8);
    r.push('c' as u8);
    r.push('i' as u8);
    r.push('p' as u8);
    r.push('e' as u8);
    r.push('s' as u8);
    proof { assert(r@ =~= run_recipes_name()); }
    r
}

/// The hub action that starts a named recipe.
pub open spec fn run_recipe_cmd() -> Seq<u8> {
    seq!['R' as u8, 'U' as u8, 'N' as u8, '_' as u8, 'R' as u8, 'E' as u8, 'C' as u8, 'I' as u8, 'P' as u8, 'E' as u8]
}

pub fn run_recipe_cmd_bytes() -> (r: Vec<u8>)
    ensures
        r@ == run_recipe_cmd(),
{
    let mut r: Vec<u8> = Vec::new();
    r.push('R' as u8);
    r.push('U' as u8);
    r.push('N' as u8);
    r.push('_' as u8);
    r.push('R' as u8);
    r.push('E' as u8);
    r.push('C' as u8);
    r.push('I' as u8);
    r.push('P' as u8);
    r.push('E' as u8);
    proof { assert(r@ =~= run_recipe_cmd()); }
    r
}

/// The `RUN_RECIPE` command for one recipe, with the recipe's literal
/// name as the argument.
pub fn recipe_command(r: &Recipe) -> (c: Command)
    ensures
        c.cmd@ == run_recipe_cmd(),
        c.id@ == r.spec_value(),
{
    Command { cmd: run_recipe_cmd_bytes(), id: r.value_bytes() }
}

/// What one timer fire decides, given the reading the weather source
/// produced for it.
#[derive(Clone, Copy, PartialEq, Eq, Structural, Debug)]
pub enum FireOutcome {
    /// The job was cancelled between arming the timer and the fire.
    JobGone,
    /// No reading was available; this run is skipped and logged.
    NoReading(DataError),
    /// The reading is at or below every threshold; no recipe runs.
    OutOfRange,
    /// Send `RUN_RECIPE` for this recipe.
    Dispatch(Recipe),
}

/// What a schedule request was answered with.
#[derive(Clone, Copy, PartialEq, Eq, Structural, Debug)]
pub enum ScheduleOutcome {
    Started,
    Stopped,
}

impl ScheduleOutcome {
    /// The confirmation text a caller is shown.
    pub fn message(&self) -> (r: &'static str)
        ensures
            r@ == match self {
                ScheduleOutcome::Started => "Running schedule for 11.59pm daily"@,
                ScheduleOutcome::Stopped => "Stopping schedule for 11.59pm daily"@,
            },
    {
        match self {
            ScheduleOutcome::Started => "Running schedule for 11.59pm daily",
            ScheduleOutcome::Stopped => "Stopping schedule for 11.59pm daily",
        }
    }
}

/// One thing the outside loop reports to the engine: a schedule request
/// arrived, the recipe job's timer fired (with the weather reading
/// fetched for it), or a dispatched command finished.
pub enum SchedulerEvent {
    Schedule(ScheduleRequest),
    Fire(Result<i64, DataError>),
    DispatchDone(Result<(), DispatchError>),
}

/// What the outside loop is to do next.
#[derive(Clone, Copy, PartialEq, Eq, Debug)]
pub enum SchedulerAction {
    /// Answer the schedule request with this result.
    Reply(Result<ScheduleOutcome, ScheduleError>),
    /// Act on a fire: dispatch the recipe, or skip this run.
    Run(FireOutcome),
    /// A dispatch outcome was recorded; nothing further to do.
    Noted,
}

/// The registry after one event.  Only a validated schedule request
/// changes it: a fire or a dispatch outcome — success or failure — leaves
/// it exactly as it was.
pub open spec fn spec_step(m: Map<Seq<u8>, JobDef>, ev: SchedulerEvent) -> Map<Seq<u8>, JobDef> {
    match ev {
        SchedulerEvent::Schedule(req) => {
            if req.spec_rejection() is Some {
                m
            } else if req.run->0 {
                m.insert(run_recipes_name(), (req.time->0@, req.spec_thresholds()))
            } else {
                m.remove(run_recipes_name())
            }
        },
        SchedulerEvent::Fire(_) => m,
        SchedulerEvent::DispatchDone(_) => m,
    }
}

/// What a fire decides against registry state `m`.
pub open spec fn spec_fire_outcome(
    m: Map<Seq<u8>, JobDef>,
    reading: Result<i64, DataError>,
) -> FireOutcome {
    if !m.contains_key(run_recipes_name()) {
        FireOutcome::JobGone
    } else {
        match reading {
            Err(e) => FireOutcome::NoReading(e),
            Ok(x) => match m[run_recipes_name()].1.spec_select(x) {
                Some(r) => FireOutcome::Dispatch(r),
                None => FireOutcome::OutOfRange,
            },
        }
    }
}

/// Feeds one event to the engine: the registry moves to `spec_step` of
/// the old state, and the returned action is determined by that state and
/// the event alone.
pub fn scheduler_step(reg: &mut JobRegistry, ev: SchedulerEvent) -> (r: SchedulerAction)
    requires
        old(reg).wf(),
    ensures
        final(reg).wf(),
        final(reg).as_map() == spec_step(old(reg).as_map(), ev),
        match ev {
            SchedulerEvent::Schedule(req) => r == SchedulerAction::Reply(
                match req.spec_rejection() {
                    Some(e) => Err::<ScheduleOutcome, ScheduleError>(e),
                    None => Ok::<ScheduleOutcome, ScheduleError>(
                        if req.run->0 {
                            ScheduleOutcome::Started
                        } else {
                            ScheduleOutcome::Stopped
                        },
                    ),
                },
            ),
            SchedulerEvent::Fire(reading) => r == SchedulerAction::Run(
                spec_fire_outcome(old(reg).as_map(), reading),
            ),
            SchedulerEvent::DispatchDone(_) => r == SchedulerAction::Noted,
        },
{
    match ev {
        SchedulerEvent::Schedule(req) => {
            match validate_schedule(&req) {
                Ok(s) => {
                    let name = run_recipes_name_bytes();
                    if s.run {
                        reg.add(name, s.time, s.thresholds);
                        SchedulerAction::Reply(Ok(ScheduleOutcome::Started))
                    } else {
                        reg.cancel_by_name(&name);
                        SchedulerAction::Reply(Ok(ScheduleOutcome::Stopped))
                    }
                },
                Err(e) => SchedulerAction::Reply(Err(e)),
            }
        },
        SchedulerEvent::Fire(reading) => {
            let name = run_recipes_name_bytes();
            match reg.lookup(&name) {
                None => SchedulerAction::Run(FireOutcome::JobGone),
                Some((_cron, ts)) => {
                    match reading {
                        Err(e) => SchedulerAction::Run(FireOutcome::NoReading(e)),
                        Ok(x) => {
                            match ts.select(x) {
                                Some(rc) => SchedulerAction::Run(FireOutcome::Dispatch(rc)),
                                None => SchedulerAction::Run(FireOutcome::OutOfRange),
                            }
                        },
                    }
                },
            }
        },
        SchedulerEvent::DispatchDone(_) => SchedulerAction::Noted,
    }
}

/// A failed run does not take the schedule down: after a fire — whatever
/// its reading — and after recording its dispatch outcome — success or
/// failure — the registry is exactly as before, the job is still
/// registered, and a later fire still evaluates the registered
/// thresholds.
pub proof fn lemma_failed_run_keeps_next_fire(
    m: Map<Seq<u8>, JobDef>,
    reading: Result<i64, DataError>,
    outcome: Result<(), DispatchError>,
    x: i64,
)
    requires
        m.contains_key(run_recipes_name()),
    ensures
        spec_step(spec_step(m, SchedulerEvent::Fire(reading)), SchedulerEvent::DispatchDone(outcome))
            == m,
        !(spec_fire_outcome(
            spec_step(
                spec_step(m, SchedulerEvent::Fire(reading)),
                SchedulerEvent::DispatchDone(outcome),
            ),
            Ok(x),
        ) is JobGone),
        spec_fire_outcome(m, Ok(x)) == match m[run_recipes_name()].1.spec_select(x) {
            Some(r) => FireOutcome::Dispatch(r),
            None => FireOutcome::OutOfRange,
        },
{
}

} // verus!
