use rhai_runner::api::{admit_submission, Api, AppState, ScriptRequest, ScriptResponse};
use rhai_runner::dispatcher::Progress;
use rhai_runner::error::{badrequest_error, interal_error, notfound_error, ApiError};
use rhai_runner::validate::{report, validate_cron, validate_script};
use rhai_runner::worker::serve_all;

fn no_network(url: &str) -> String {
    format!("no route to {}", url)
}

fn plain(script: &str) -> ScriptRequest {
    ScriptRequest { cron: None, script: String::from(script) }
}

fn scheduled(cron: &str, script: &str) -> ScriptRequest {
    ScriptRequest { cron: Some(String::from(cron)), script: String::from(script) }
}

fn script_error(text: &str) -> String {
    rhai::Engine::new().compile(text).unwrap_err().to_string()
}

fn cron_error(expr: &str) -> String {
    <cron::Schedule as std::str::FromStr>::from_str(expr).unwrap_err().to_string()
}

#[test]
fn error_classes_have_their_status_codes() {
    assert_eq!(interal_error(String::from("a")).status(), 500);
    assert_eq!(badrequest_error(String::from("b")).status(), 400);
    assert_eq!(notfound_error(String::from("c")).status(), 404);
}

#[test]
fn error_constructors_keep_the_message() {
    assert_eq!(interal_error(String::from("a")), ApiError::InternalError(String::from("a")));
    assert_eq!(badrequest_error(String::from("b")), ApiError::RequestError(String::from("b")));
    assert_eq!(notfound_error(String::from("c")), ApiError::NotFoundError(String::from("c")));
    assert_eq!(notfound_error(String::from("gone")).message(), "gone");
    assert_eq!(interal_error(String::from("down")).message(), "down");
    assert_eq!(badrequest_error(String::from("bad")).message(), "bad");
}

#[test]
fn report_turns_an_objection_into_a_request_error() {
    assert_eq!(report(Ok(())), Ok(()));
    assert_eq!(
        report(Err(String::from("unexpected end"))),
        Err(ApiError::RequestError(String::from("unexpected end")))
    );
}

#[test]
fn validate_script_accepts_well_formed_text() {
    assert_eq!(validate_script("1+1"), Ok(()));
    assert_eq!(validate_script("let x = 40; x + 2"), Ok(()));
    assert_eq!(validate_script("fetch(\"http://example.invalid/\")"), Ok(()));
}

#[test]
fn validate_script_rejects_malformed_text() {
    assert_eq!(validate_script("1 +"), Err(ApiError::RequestError(script_error("1 +"))));
    assert_eq!(
        validate_script("let = ;"),
        Err(ApiError::RequestError(script_error("let = ;")))
    );
    assert_ne!(script_error("1 +"), "1 +");
}

#[test]
fn validate_cron_accepts_and_rejects() {
    assert_eq!(validate_cron("0 * * * * *"), Ok(()));
    assert_eq!(validate_cron("0 0 12 * * Mon-Fri"), Ok(()));
    assert_eq!(
        validate_cron("soon"),
        Err(ApiError::RequestError(cron_error("soon")))
    );
    assert_ne!(cron_error("soon"), "soon");
}

#[test]
fn admit_submission_judges_the_script_first() {
    let fine: Result<(), String> = Ok(());
    let bad_script: Result<(), String> = Err(String::from("script"));
    let bad_cron: Option<Result<(), String>> = Some(Err(String::from("cron")));
    assert_eq!(admit_submission(&fine, &None), Ok(()));
    assert_eq!(admit_submission(&fine, &Some(Ok(()))), Ok(()));
    assert_eq!(
        admit_submission(&fine, &bad_cron),
        Err(ApiError::RequestError(String::from("cron")))
    );
    assert_eq!(
        admit_submission(&bad_script, &None),
        Err(ApiError::RequestError(String::from("script")))
    );
    assert_eq!(
        admit_submission(&bad_script, &bad_cron),
        Err(ApiError::RequestError(String::from("script")))
    );
}

#[test]
fn new_state_is_empty() {
    let state = AppState::new();
    assert_eq!(state.scripts.len(), 0);
    assert_eq!(state.dispatcher.backlog(), 0);
    assert_eq!(state.scheduler.len(), 0);
    assert!(Api.scripts(&state).is_empty());
}

#[test]
fn script_post_stores_the_text() {
    let mut state = AppState::new();
    let response = Api.script_post(&mut state, plain("40 + 2")).unwrap();
    assert_eq!(response.script, plain("40 + 2"));
    assert_eq!(response.job, None);
    assert_eq!(state.scripts.get(response.id), Some(String::from("40 + 2")));
    assert_eq!(state.scripts.len(), 1);
    assert_eq!(state.scheduler.len(), 0);
}

#[test]
fn script_post_draws_a_version_four_id() {
    let mut state = AppState::new();
    let id = Api.script_post(&mut state, plain("1")).unwrap().id;
    assert_eq!((id >> 76) & 0xf, 4);
    assert_eq!((id >> 62) & 0x3, 2);
}

#[test]
fn script_post_with_a_schedule_registers_a_job() {
    let mut state = AppState::new();
    let response = Api.script_post(&mut state, scheduled("0 * * * * *", "1+1")).unwrap();
    assert_eq!(response.script, scheduled("0 * * * * *", "1+1"));
    assert_eq!(response.job, Some(0));
    assert_eq!(state.scripts.get(response.id), Some(String::from("1+1")));
    assert_eq!(state.scheduler.len(), 1);
    let job = state.scheduler.job(0).unwrap();
    assert_eq!(job.cron, "0 * * * * *");
    assert_eq!(job.script, "1+1");
}

#[test]
fn script_post_rejects_invalid_script_text() {
    let mut state = AppState::new();
    Api.store(&mut state, 1, plain("1"));
    let outcome = Api.script_post(&mut state, plain("1 +"));
    assert_eq!(outcome, Err(ApiError::RequestError(script_error("1 +"))));
    assert_eq!(state.scripts.len(), 1);
    assert_eq!(state.scripts.list(), vec![(1, String::from("1"))]);
    assert_eq!(state.scheduler.len(), 0);
    assert_eq!(state.dispatcher.backlog(), 0);
}

#[test]
fn script_post_rejects_an_invalid_schedule() {
    let mut state = AppState::new();
    Api.store(&mut state, 1, plain("1"));
    let outcome = Api.script_post(&mut state, scheduled("whenever", "1+1"));
    assert_eq!(outcome, Err(ApiError::RequestError(cron_error("whenever"))));
    assert_eq!(state.scripts.len(), 1);
    assert_eq!(state.scripts.list(), vec![(1, String::from("1"))]);
    assert_eq!(state.scheduler.len(), 0);
    assert_eq!(state.dispatcher.backlog(), 0);
}

#[test]
fn script_post_reports_the_script_before_the_schedule() {
    let mut state = AppState::new();
    let outcome = Api.script_post(&mut state, scheduled("whenever", "1 +"));
    assert_eq!(outcome, Err(ApiError::RequestError(script_error("1 +"))));
    assert_eq!(state.scripts.len(), 0);
    assert_eq!(state.scheduler.len(), 0);
}

#[test]
fn many_submissions_get_distinct_ids() {
    let mut state = AppState::new();
    let mut ids: Vec<u128> = Vec::new();
    for i in 0..40 {
        ids.push(Api.script_post(&mut state, plain(&format!("{}", i))).unwrap().id);
    }
    let mut sorted = ids.clone();
    sorted.sort();
    sorted.dedup();
    assert_eq!(sorted.len(), 40);
    assert_eq!(state.scripts.len(), 40);
    for (i, id) in ids.iter().enumerate() {
        assert_eq!(state.scripts.get(*id), Some(format!("{}", i)));
    }
}

#[test]
fn store_replaces_the_text_under_an_id_in_use() {
    let mut state = AppState::new();
    Api.store(&mut state, 5, plain("old"));
    let response = Api.store(&mut state, 5, plain("new"));
    assert_eq!(response.id, 5);
    assert_eq!(response.script, plain("new"));
    assert_eq!(response.job, None);
    assert_eq!(state.scripts.get(5), Some(String::from("new")));
    assert_eq!(state.scripts.len(), 1);
}

#[test]
fn a_job_keeps_the_text_it_was_registered_with() {
    let mut state = AppState::new();
    Api.store(&mut state, 5, scheduled("0 * * * * *", "\"first\""));
    Api.store(&mut state, 5, plain("\"second\""));
    assert_eq!(state.scheduler.job(0).unwrap().script, "\"first\"");
    Api.script_delete(&mut state, 5).unwrap();
    assert_eq!(state.scheduler.job(0).unwrap().script, "\"first\"");
}

#[test]
fn run_script_submits_the_stored_text() {
    let mut state = AppState::new();
    let id = Api.script_post(&mut state, plain("1+1")).unwrap().id;
    let ticket = Api.run_script(&mut state, id).unwrap();
    assert_eq!(ticket, 0);
    assert_eq!(state.dispatcher.progress(ticket), Progress::Queued);
    serve_all(&mut state.dispatcher, &no_network);
    assert_eq!(state.dispatcher.collect(ticket), Some(String::from("2")));
}

#[test]
fn run_script_of_an_unknown_id_fails() {
    let mut state = AppState::new();
    assert_eq!(
        Api.run_script(&mut state, 0xa1a2a3a4b1b2c1c2d1d2d3d4d5d6d7d8),
        Err(ApiError::NotFoundError(String::from(
            "Script id a1a2a3a4-b1b2-c1c2-d1d2-d3d4d5d6d7d8 not found"
        )))
    );
    assert_eq!(state.dispatcher.backlog(), 0);
}

#[test]
fn run_script_pads_small_ids_with_zeros() {
    let mut state = AppState::new();
    assert_eq!(
        Api.run_script(&mut state, 0x1f),
        Err(ApiError::NotFoundError(String::from(
            "Script id 00000000-0000-0000-0000-00000000001f not found"
        )))
    );
}

#[test]
fn run_script_on_a_closed_dispatcher_fails() {
    let mut state = AppState::new();
    let id = Api.script_post(&mut state, plain("1+1")).unwrap().id;
    state.dispatcher.close();
    assert_eq!(
        Api.run_script(&mut state, id),
        Err(ApiError::InternalError(String::from("sending on a closed channel")))
    );
    assert_eq!(state.scripts.len(), 1);
}

#[test]
fn two_runs_of_one_script_each_get_their_result() {
    let mut state = AppState::new();
    let id = Api.script_post(&mut state, plain("\"same\"")).unwrap().id;
    let first = Api.run_script(&mut state, id).unwrap();
    let second = Api.run_script(&mut state, id).unwrap();
    assert_ne!(first, second);
    serve_all(&mut state.dispatcher, &no_network);
    assert_eq!(state.dispatcher.collect(second), Some(String::from("same")));
    assert_eq!(state.dispatcher.collect(first), Some(String::from("same")));
}

#[test]
fn runs_of_two_scripts_are_not_swapped() {
    let mut state = AppState::new();
    let a = Api.script_post(&mut state, plain("\"A\"")).unwrap().id;
    let b = Api.script_post(&mut state, plain("\"B\"")).unwrap().id;
    let mut tickets: Vec<(u64, u64)> = Vec::new();
    for _ in 0..100 {
        let for_b = Api.run_script(&mut state, b).unwrap();
        let for_a = Api.run_script(&mut state, a).unwrap();
        tickets.push((for_a, for_b));
    }
    serve_all(&mut state.dispatcher, &no_network);
    for (for_a, for_b) in tickets {
        assert_eq!(state.dispatcher.collect(for_a), Some(String::from("A")));
        assert_eq!(state.dispatcher.collect(for_b), Some(String::from("B")));
    }
}

#[test]
fn a_script_error_is_an_ordinary_result() {
    let mut state = AppState::new();
    let id = Api.script_post(&mut state, plain("missing + 1")).unwrap().id;
    let ticket = Api.run_script(&mut state, id).unwrap();
    serve_all(&mut state.dispatcher, &no_network);
    let expected =
        rhai::Engine::new().eval::<rhai::Dynamic>("missing + 1").unwrap_err().to_string();
    assert_eq!(state.dispatcher.collect(ticket), Some(expected));
}

#[test]
fn scripts_lists_what_is_stored() {
    let mut state = AppState::new();
    Api.store(&mut state, 2, plain("two"));
    Api.store(&mut state, 1, plain("one"));
    let mut listing = Api.scripts(&state);
    listing.sort_by_key(|response| response.id);
    assert_eq!(
        listing,
        vec![
            ScriptResponse { id: 1, script: String::from("one") },
            ScriptResponse { id: 2, script: String::from("two") },
        ]
    );
}

#[test]
fn script_delete_returns_the_script() {
    let mut state = AppState::new();
    Api.store(&mut state, 1, plain("one"));
    Api.store(&mut state, 2, plain("two"));
    assert_eq!(
        Api.script_delete(&mut state, 1),
        Ok(ScriptResponse { id: 1, script: String::from("one") })
    );
    assert_eq!(state.scripts.list(), vec![(2, String::from("two"))]);
}

#[test]
fn script_delete_of_an_unknown_id_fails_and_changes_nothing() {
    let mut state = AppState::new();
    Api.store(&mut state, 1, plain("one"));
    assert_eq!(
        Api.script_delete(&mut state, 0x67e5504410b1426f9247bb680e5fe0c8),
        Err(ApiError::NotFoundError(String::from(
            "Script not found: 67e55044-10b1-426f-9247-bb680e5fe0c8"
        )))
    );
    assert_eq!(state.scripts.len(), 1);
    assert_eq!(state.scripts.list(), vec![(1, String::from("one"))]);
}

#[test]
fn a_deleted_script_cannot_be_run() {
    let mut state = AppState::new();
    let id = Api.script_post(&mut state, plain("1")).unwrap().id;
    Api.script_delete(&mut state, id).unwrap();
    assert!(matches!(Api.run_script(&mut state, id), Err(ApiError::NotFoundError(_))));
}

#[test]
fn a_submitted_run_keeps_its_text_when_the_script_is_deleted() {
    let mut state = AppState::new();
    let id = Api.script_post(&mut state, plain("\"kept\"")).unwrap().id;
    let ticket = Api.run_script(&mut state, id).unwrap();
    Api.script_delete(&mut state, id).unwrap();
    serve_all(&mut state.dispatcher, &no_network);
    assert_eq!(state.dispatcher.collect(ticket), Some(String::from("kept")));
}
