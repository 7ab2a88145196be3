//! Validation of schedule-setting requests.
//!
//! A request arrives with every field optional — the transport can not
//! promise more — and is either rejected with a descriptive error or
//! turned into a complete [`Schedule`].  Rejection must leave whatever
//! schedule is already running untouched; the registry operations
//! therefore only ever see validated values.

use vstd::prelude::*;

use crate::thresholds::ThresholdSet;

verus! {

/// A raw schedule-setting request: the fields a caller supplied, each
/// possibly absent.
pub struct ScheduleRequest {
    pub run: Option<bool>,
    pub time: Option<Vec<u8>>,
    pub threshold_1: Option<i64>,
    pub threshold_2: Option<i64>,
    pub threshold_3: Option<i64>,
    pub threshold_4: Option<i64>,
}

/// A validated schedule: start (`run`) or stop the recipe job, the cron
/// expression to run it under, and the thresholds its runs compare
/// against.  When `run` is set the thresholds are strictly descending.
#[derive(Debug)]
pub struct Schedule {
    pub run: bool,
    pub time: Vec<u8>,
    pub thresholds: ThresholdSet,
}

/// Why a schedule request was rejected.
#[derive(Clone, Copy, PartialEq, Eq, Structural, Debug)]
pub enum ScheduleError {
    MissingRun,
    MissingTime,
    MissingThreshold1,
    MissingThreshold2,
    MissingThreshold3,
    MissingThreshold4,
    ThresholdsNotDescending,
}

impl ScheduleError {
    /// A human-readable account of the rejection.
    pub fn description(&self) -> (r: &'static str)
        ensures
            r@ == match self {
                ScheduleError::MissingRun => "schedule request is missing the 'run' field"@,
                ScheduleError::MissingTime => "schedule request is missing the 'time' field"@,
                ScheduleError::MissingThreshold1 => "schedule request is missing the 'threshold_1' field"@,
                ScheduleError::MissingThreshold2 => "schedule request is missing the 'threshold_2' field"@,
                ScheduleError::MissingThreshold3 => "schedule request is missing the 'threshold_3' field"@,
                ScheduleError::MissingThreshold4 => "schedule request is missing the 'threshold_4' field"@,
                ScheduleError::ThresholdsNotDescending => "schedule thresholds must be strictly descending"@,
            },
    {
        match self {
            ScheduleError::MissingRun => "schedule request is missing the 'run' field",
            ScheduleError::MissingTime => "schedule request is missing the 'time' field",
            ScheduleError::MissingThreshold1 => "schedule request is missing the 'threshold_1' field",
            ScheduleError::MissingThreshold2 => "schedule request is missing the 'threshold_2' field",
            ScheduleError::MissingThreshold3 => "schedule request is missing the 'threshold_3' field",
            ScheduleError::MissingThreshold4 => "schedule request is missing the 'threshold_4' field",
            ScheduleError::ThresholdsNotDescending => "schedule thresholds must be strictly descending",
        }
    }
}

impl ScheduleRequest {
    /// Every field was supplied.
    pub open spec fn all_present(self) -> bool {
        &&& self.run is Some
        &&& self.time is Some
        &&& self.threshold_1 is Some
        &&& self.threshold_2 is Some
        &&& self.threshold_3 is Some
        &&& self.threshold_4 is Some
    }

    /// The thresholds of a fully supplied request, as a set.
    pub open spec fn spec_thresholds(self) -> ThresholdSet
        recommends
            self.all_present(),
    {
        ThresholdSet {
            t1: self.threshold_1->0,
            t2: self.threshold_2->0,
            t3: self.threshold_3->0,
            t4: self.threshold_4->0,
        }
    }

    /// The error a request is rejected with, if any: the first missing
    /// field in declaration order, or unordered thresholds on a request
    /// that starts the job.
    pub open spec fn spec_rejection(self) -> Option<ScheduleError> {
        if self.run is None {
            Some(ScheduleError::MissingRun)
        } else if self.time is None {
            Some(ScheduleError::MissingTime)
        } else if self.threshold_1 is None {
            Some(ScheduleError::MissingThreshold1)
        } else if self.threshold_2 is None {
            Some(ScheduleError::MissingThreshold2)
        } else if self.threshold_3 is None {
            Some(ScheduleError::MissingThreshold3)
        } else if self.threshold_4 is None {
            Some(ScheduleError::MissingThreshold4)
        } else if self.run->0 && !self.spec_thresholds().wf() {
            Some(ScheduleError::ThresholdsNotDescending)
        } else {
            None
        }
    }
}

/// Checks a raw request and either returns the complete schedule it
/// describes or rejects it: a rejected request produces no schedule at
/// all, so it can not disturb one that is already running.
pub fn validate_schedule(req: &ScheduleRequest) -> (r: Result<Schedule, ScheduleError>)
    ensures
        match r {
            Ok(s) => {
                &&& req.spec_rejection() is None
                &&& req.all_present()
                &&& s.run == req.run->0
                &&& s.time@ == req.time->0@
                &&& s.thresholds == req.spec_thresholds()
                &&& s.run ==> s.thresholds.wf()
            },
            Err(e) => req.spec_rejection() == Some(e),
        },
{
    let run = match &req.run {
        Some(b) => *b,
        None => {
            return Err(ScheduleError::MissingRun);
        },
    };
    let time = match &req.time {
        Some(t) => crate::byteseq::copy_bytes(t),
        None => {
            return Err(ScheduleError::MissingTime);
        },
    };
    let t1 = match &req.threshold_1 {
        Some(v) => *v,
        None => {
            return Err(ScheduleError::MissingThreshold1);
        },
    };
    let t2 = match &req.threshold_2 {
        Some(v) => *v,
        None => {
            return Err(ScheduleError::MissingThreshold2);
        },
    };
    let t3 = match &req.threshold_3 {
        Some(v) => *v,
        None => {
            return Err(ScheduleError::MissingThreshold3);
        },
    };
    let t4 = match &req.threshold_4 {
        Some(v) => *v,
        None => {
            return Err(ScheduleError::MissingThreshold4);
        },
    };
    let thresholds = ThresholdSet { t1, t2, t3, t4 };
    if run && !(t1 > t2 && t2 > t3 && t3 > t4) {
        return Err(ScheduleError::ThresholdsNotDescending);
    }
    Ok(Schedule { run, time, thresholds })
}

} // verus!
