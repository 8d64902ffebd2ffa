use rhai_runner::dispatcher::Dispatcher;
use rhai_runner::error::ApiError;
use rhai_runner::scheduler::{ScheduledJob, Scheduler};
use rhai_runner::worker::serve_all;

fn no_network(url: &str) -> String {
    format!("no route to {}", url)
}

#[test]
fn new_scheduler_has_no_job() {
    let scheduler = Scheduler::new();
    assert_eq!(scheduler.len(), 0);
    assert_eq!(scheduler.job(0), None);
}

#[test]
fn register_accepts_a_valid_expression() {
    let mut scheduler = Scheduler::new();
    assert_eq!(scheduler.register("0 * * * * *", "1+1"), Ok(0));
    assert_eq!(scheduler.len(), 1);
    assert_eq!(
        scheduler.job(0),
        Some(&ScheduledJob {
            id: 0,
            cron: String::from("0 * * * * *"),
            script: String::from("1+1"),
        })
    );
}

#[test]
fn register_numbers_jobs_in_order() {
    let mut scheduler = Scheduler::new();
    assert_eq!(scheduler.register("0 * * * * *", "1"), Ok(0));
    assert_eq!(scheduler.register("0 0 * * * *", "2"), Ok(1));
    assert_eq!(scheduler.register("@daily", "3"), Ok(2));
    assert_eq!(scheduler.job(1).unwrap().script, "2");
    assert_eq!(scheduler.job(3), None);
}

#[test]
fn register_accepts_ranges_lists_and_steps() {
    let mut scheduler = Scheduler::new();
    assert!(scheduler.register("0 0-30 * * * *", "1").is_ok());
    assert!(scheduler.register("0 0,15,30,45 * * * *", "1").is_ok());
    assert!(scheduler.register("0 */5 * * * *", "1").is_ok());
    assert!(scheduler.register("0 30 9 1 Jan Mon 2030", "1").is_ok());
    assert_eq!(scheduler.len(), 4);
}

#[test]
fn register_rejects_an_invalid_expression() {
    let mut scheduler = Scheduler::new();
    let expected =
        <cron::Schedule as std::str::FromStr>::from_str("every minute").unwrap_err().to_string();
    assert_eq!(
        scheduler.register("every minute", "1+1"),
        Err(ApiError::RequestError(expected))
    );
    assert_eq!(scheduler.len(), 0);
}

#[test]
fn register_rejects_an_expression_without_seconds() {
    let mut scheduler = Scheduler::new();
    assert!(scheduler.register("* * * * *", "1+1").is_err());
    assert!(scheduler.register("", "1+1").is_err());
    assert!(scheduler.register("61 * * * * *", "1+1").is_err());
    assert_eq!(scheduler.len(), 0);
}

#[test]
fn a_rejection_keeps_the_jobs_that_are_there() {
    let mut scheduler = Scheduler::new();
    scheduler.register("0 * * * * *", "1").unwrap();
    assert!(scheduler.register("nonsense", "2").is_err());
    assert_eq!(scheduler.len(), 1);
    assert_eq!(scheduler.register("0 * * * * *", "3"), Ok(1));
}

#[test]
fn enter_goes_by_the_verdict() {
    let mut scheduler = Scheduler::new();
    assert_eq!(
        scheduler.enter(Err(String::from("bad field")), String::from("x"), String::from("1")),
        Err(ApiError::RequestError(String::from("bad field")))
    );
    assert_eq!(scheduler.len(), 0);
    assert_eq!(
        scheduler.enter(Ok(()), String::from("0 * * * * *"), String::from("1")),
        Ok(0)
    );
    assert_eq!(scheduler.len(), 1);
}

#[test]
fn trigger_submits_the_text_and_does_not_wait() {
    let mut scheduler = Scheduler::new();
    let mut dispatcher = Dispatcher::new();
    let job = scheduler.register("0 * * * * *", "1+1").unwrap();
    let ticket = scheduler.trigger(job, &mut dispatcher).unwrap();
    assert_eq!(dispatcher.backlog(), 1);
    assert_eq!(dispatcher.collect(ticket), None);
    let request = dispatcher.take().unwrap();
    assert_eq!(request.ticket, ticket);
    assert_eq!(request.script, "1+1");
}

#[test]
fn every_trigger_of_the_minute_job_yields_two() {
    let mut scheduler = Scheduler::new();
    let mut dispatcher = Dispatcher::new();
    let job = scheduler.register("0 * * * * *", "1+1").unwrap();
    let mut tickets: Vec<u64> = Vec::new();
    for _ in 0..3 {
        tickets.push(scheduler.trigger(job, &mut dispatcher).unwrap());
        serve_all(&mut dispatcher, &no_network);
    }
    assert!(tickets.len() >= 2);
    for ticket in tickets {
        assert_eq!(dispatcher.collect(ticket), Some(String::from("2")));
    }
}

#[test]
fn triggers_of_one_job_may_overlap() {
    let mut scheduler = Scheduler::new();
    let mut dispatcher = Dispatcher::new();
    let job = scheduler.register("* * * * * *", "\"tick\"").unwrap();
    let first = scheduler.trigger(job, &mut dispatcher).unwrap();
    let second = scheduler.trigger(job, &mut dispatcher).unwrap();
    assert_ne!(first, second);
    assert_eq!(dispatcher.backlog(), 2);
    dispatcher.take().unwrap();
    dispatcher.take().unwrap();
    assert!(dispatcher.complete(second, String::from("tick")));
    assert!(dispatcher.complete(first, String::from("tick")));
}

#[test]
fn trigger_of_an_unknown_job_fails() {
    let scheduler = Scheduler::new();
    let mut dispatcher = Dispatcher::new();
    assert_eq!(
        scheduler.trigger(0, &mut dispatcher),
        Err(ApiError::NotFoundError(String::from("Job not found")))
    );
    assert_eq!(dispatcher.backlog(), 0);
}

#[test]
fn trigger_on_a_closed_dispatcher_fails() {
    let mut scheduler = Scheduler::new();
    let mut dispatcher = Dispatcher::new();
    let job = scheduler.register("0 * * * * *", "1+1").unwrap();
    dispatcher.close();
    assert_eq!(
        scheduler.trigger(job, &mut dispatcher),
        Err(ApiError::InternalError(String::from("sending on a closed channel")))
    );
}
