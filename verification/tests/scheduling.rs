use neohub::codec::command_envelope;
use neohub::codec::parse_envelope;
use neohub::engine::recipe_command;
use neohub::engine::scheduler_step;
use neohub::engine::validate_config;
use neohub::engine::ConfigError;
use neohub::engine::DataError;
use neohub::engine::DispatchError;
use neohub::engine::FireOutcome;
use neohub::engine::SchedulerAction;
use neohub::engine::SchedulerEvent;
use neohub::engine::ScheduleOutcome;
use neohub::registry::JobRegistry;
use neohub::retry::next_attempt;
use neohub::retry::RetryDecision;
use neohub::retry::RetryPolicy;
use neohub::schedule::validate_schedule;
use neohub::schedule::ScheduleError;
use neohub::schedule::ScheduleRequest;
use neohub::thresholds::Recipe;
use neohub::thresholds::ThresholdSet;
use neohub::weather::weather_url;
use neohub::ErrorResponse;

fn bytes(s: &str) -> Vec<u8> {
    s.as_bytes().to_vec()
}

fn full_request(run: bool, t1: i64, t2: i64, t3: i64, t4: i64) -> ScheduleRequest {
    ScheduleRequest {
        run: Some(run),
        time: Some(bytes("0 23 * * *")),
        threshold_1: Some(t1),
        threshold_2: Some(t2),
        threshold_3: Some(t3),
        threshold_4: Some(t4),
    }
}

#[test]
fn adding_the_job_twice_keeps_one_job_with_the_second_definition() {
    let mut reg = JobRegistry::new();
    reg.add(bytes("run_recipes"), bytes("0 23 * * *"), ThresholdSet { t1: 900, t2: 500, t3: 100, t4: -300 });
    reg.add(bytes("run_recipes"), bytes("30 6 * * *"), ThresholdSet { t1: 800, t2: 400, t3: 0, t4: -400 });
    assert_eq!(reg.job_total(), 1);
    let (cron, ts) = reg.lookup(&bytes("run_recipes")).expect("the job must be registered");
    assert_eq!(cron, bytes("30 6 * * *"));
    assert_eq!(ts, ThresholdSet { t1: 800, t2: 400, t3: 0, t4: -400 });
}

#[test]
fn cancelling_a_name_never_added_changes_nothing() {
    let mut reg = JobRegistry::new();
    reg.cancel_by_name(&bytes("run_recipes"));
    assert_eq!(reg.job_total(), 0);

    reg.add(bytes("run_recipes"), bytes("0 23 * * *"), ThresholdSet { t1: 900, t2: 500, t3: 100, t4: -300 });
    reg.cancel_by_name(&bytes("other_job"));
    assert_eq!(reg.job_total(), 1);
    let (cron, _) = reg.lookup(&bytes("run_recipes")).expect("the job must still be registered");
    assert_eq!(cron, bytes("0 23 * * *"));
}

#[test]
fn a_request_missing_the_time_field_is_rejected_and_keeps_the_schedule() {
    let mut reg = JobRegistry::new();
    let started = scheduler_step(&mut reg, SchedulerEvent::Schedule(full_request(true, 900, 500, 100, -300)));
    assert_eq!(started, SchedulerAction::Reply(Ok(ScheduleOutcome::Started)));

    let mut bad = full_request(true, 0, -100, -200, -300);
    bad.time = None;
    let answer = scheduler_step(&mut reg, SchedulerEvent::Schedule(bad));
    assert_eq!(answer, SchedulerAction::Reply(Err(ScheduleError::MissingTime)));

    // The earlier schedule is untouched and still fires.
    let (cron, ts) = reg.lookup(&bytes("run_recipes")).expect("the job must still be registered");
    assert_eq!(cron, bytes("0 23 * * *"));
    assert_eq!(ts, ThresholdSet { t1: 900, t2: 500, t3: 100, t4: -300 });
    let fire = scheduler_step(&mut reg, SchedulerEvent::Fire(Ok(1000)));
    assert_eq!(fire, SchedulerAction::Run(FireOutcome::Dispatch(Recipe::Start6am)));
}

#[test]
fn missing_fields_are_reported_by_name() {
    let mut req = full_request(true, 900, 500, 100, -300);
    req.run = None;
    assert!(matches!(validate_schedule(&req), Err(ScheduleError::MissingRun)));

    let mut req = full_request(true, 900, 500, 100, -300);
    req.threshold_3 = None;
    assert!(matches!(validate_schedule(&req), Err(ScheduleError::MissingThreshold3)));

    assert!(matches!(
        validate_schedule(&full_request(true, 100, 500, 900, -300)),
        Err(ScheduleError::ThresholdsNotDescending)
    ));

    let err = validate_schedule(&{
        let mut r = full_request(true, 900, 500, 100, -300);
        r.time = None;
        r
    })
    .unwrap_err();
    assert_eq!(err.description(), "schedule request is missing the 'time' field");
}

#[test]
fn a_connector_failure_does_not_prevent_the_next_fire() {
    let mut reg = JobRegistry::new();
    scheduler_step(&mut reg, SchedulerEvent::Schedule(full_request(true, 900, 500, 100, -300)));

    // This fire gets a reading, dispatches, and the connection fails.
    let fire = scheduler_step(&mut reg, SchedulerEvent::Fire(Ok(700)));
    assert_eq!(fire, SchedulerAction::Run(FireOutcome::Dispatch(Recipe::Start430am)));
    let noted = scheduler_step(&mut reg, SchedulerEvent::DispatchDone(Err(DispatchError::Connection)));
    assert_eq!(noted, SchedulerAction::Noted);

    // The job survived and the next fire attempts again.
    assert_eq!(reg.job_total(), 1);
    let again = scheduler_step(&mut reg, SchedulerEvent::Fire(Ok(700)));
    assert_eq!(again, SchedulerAction::Run(FireOutcome::Dispatch(Recipe::Start430am)));
}

#[test]
fn a_failed_weather_fetch_skips_the_run_but_keeps_the_job() {
    let mut reg = JobRegistry::new();
    scheduler_step(&mut reg, SchedulerEvent::Schedule(full_request(true, 900, 500, 100, -300)));

    let fire = scheduler_step(&mut reg, SchedulerEvent::Fire(Err(DataError::FetchFailed)));
    assert_eq!(fire, SchedulerAction::Run(FireOutcome::NoReading(DataError::FetchFailed)));

    let fire = scheduler_step(&mut reg, SchedulerEvent::Fire(Err(DataError::FieldMissing)));
    assert_eq!(fire, SchedulerAction::Run(FireOutcome::NoReading(DataError::FieldMissing)));

    assert_eq!(reg.job_total(), 1);
    let fire = scheduler_step(&mut reg, SchedulerEvent::Fire(Ok(-500)));
    assert_eq!(fire, SchedulerAction::Run(FireOutcome::OutOfRange));
}

#[test]
fn stopping_the_schedule_cancels_the_job_and_later_fires_find_it_gone() {
    let mut reg = JobRegistry::new();
    scheduler_step(&mut reg, SchedulerEvent::Schedule(full_request(true, 900, 500, 100, -300)));
    let stopped = scheduler_step(&mut reg, SchedulerEvent::Schedule(full_request(false, 900, 500, 100, -300)));
    assert_eq!(stopped, SchedulerAction::Reply(Ok(ScheduleOutcome::Stopped)));
    assert_eq!(reg.job_total(), 0);

    let fire = scheduler_step(&mut reg, SchedulerEvent::Fire(Ok(1000)));
    assert_eq!(fire, SchedulerAction::Run(FireOutcome::JobGone));
}

#[test]
fn schedule_outcomes_carry_the_confirmation_texts() {
    assert_eq!(ScheduleOutcome::Started.message(), "Running schedule for 11.59pm daily");
    assert_eq!(ScheduleOutcome::Stopped.message(), "Stopping schedule for 11.59pm daily");
}

#[test]
fn a_dispatched_recipe_travels_as_a_run_recipe_envelope() {
    let command = recipe_command(&Recipe::Start6am);
    let envelope = command_envelope(&bytes("T"), &command);
    let parsed = parse_envelope(&envelope).expect("the dispatched envelope must parse");
    assert_eq!(parsed.cmd, bytes("RUN_RECIPE"));
    assert_eq!(parsed.id, bytes("['6am Start Time.']"));
}

#[test]
fn config_validation_names_the_first_missing_value() {
    assert_eq!(validate_config(&bytes(""), &bytes("wss://hub:4243")), Err(ConfigError::MissingToken));
    assert_eq!(validate_config(&bytes("T"), &bytes("")), Err(ConfigError::MissingUrl));
    assert_eq!(validate_config(&bytes("T"), &bytes("wss://hub:4243")), Ok(()));
}

#[test]
fn the_forecast_query_is_built_exactly() {
    let url = weather_url(&bytes("k123"), &bytes("TN174HH"));
    assert_eq!(
        url,
        bytes("http://api.weatherapi.com/v1/forecast.json?key=k123&q=TN174HH&days=1&aqi=no&alerts=no")
    );
}

#[test]
fn an_error_response_keeps_its_message() {
    let resp = ErrorResponse::new(String::from("Missing file name"));
    assert_eq!(resp.error, "Missing file name");
}

#[test]
fn retries_double_their_backoff_and_then_give_up() {
    let policy = RetryPolicy { max_attempts: 3, base_delay_ms: 500 };
    assert_eq!(next_attempt(&policy, 0), RetryDecision::Retry { delay_ms: 500 });
    assert_eq!(next_attempt(&policy, 1), RetryDecision::Retry { delay_ms: 1000 });
    assert_eq!(next_attempt(&policy, 2), RetryDecision::GiveUp);
    assert_eq!(next_attempt(&policy, 7), RetryDecision::GiveUp);

    let one_shot = RetryPolicy { max_attempts: 1, base_delay_ms: 500 };
    assert_eq!(next_attempt(&one_shot, 0), RetryDecision::GiveUp);
}

#[test]
fn retry_backoff_saturates_instead_of_overflowing() {
    let policy = RetryPolicy { max_attempts: 100, base_delay_ms: u64::MAX / 2 + 1 };
    assert_eq!(next_attempt(&policy, 0), RetryDecision::Retry { delay_ms: u64::MAX / 2 + 1 });
    assert_eq!(next_attempt(&policy, 1), RetryDecision::Retry { delay_ms: u64::MAX });
    assert_eq!(next_attempt(&policy, 2), RetryDecision::Retry { delay_ms: u64::MAX });
}
