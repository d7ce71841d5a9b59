use gbandit::http::{
    body_snippet, client_headers, decode_failure, is_success, parse_error, snippet_of, ApiError,
    ApiErrorIssue,
};
use gbandit::platform_client::{
    after_send, baseline_skipped, create_project, delete_env_failure, delete_project,
    deploy_attempt_text, get_project, list_env_attempt, logs_attempt, migration_attempt,
    query_attempt, set_env_attempt, slug_availability, AfterSend, PlatformClient,
    ProjectDeleteOutcome, ProjectReply, Sent, SlugAvailability,
};
use gbandit::query_table::{format_value, Cell, QueryResponse, QueryTable};

fn api(error: &str, code: Option<&str>) -> ApiError {
    ApiError { error: error.to_string(), code: code.map(str::to_string), issues: vec![] }
}

#[test]
fn errors_come_with_advice() {
    let e = parse_error(401, Some(api("expired", None)));
    assert_eq!(e.error, "expired — run `gbandit login` to re-authenticate");
    let e = parse_error(426, Some(api("old", Some("cli_outdated"))));
    assert_eq!(e.error, "old — run `gbandit update`");
    let e = parse_error(401, Some(api("old", Some("cli_outdated"))));
    assert_eq!(e.error, "old — run `gbandit login` to re-authenticate");
    assert!(e.has_code("cli_outdated") && !e.has_code("other"));
    let e = parse_error(404, None);
    assert_eq!(e.error, "request failed with status 404 Not Found");
    assert!(e.code.is_none() && e.issues.is_empty());
    let e = parse_error(401, None);
    assert_eq!(
        e.error,
        "request failed with status 401 Unauthorized — run `gbandit login` to re-authenticate"
    );
    assert!(!e.has_code("x"));
}

#[test]
fn issues_are_shown_below_their_error() {
    let mut e = api("invalid config", None);
    e.issues.push(ApiErrorIssue {
        path: Some("frontend".to_string()),
        message: Some("missing".to_string()),
        docs_url: Some("http://d".to_string()),
    });
    e.issues.push(ApiErrorIssue { path: None, message: None, docs_url: None });
    assert_eq!(
        e.message(),
        "invalid config\n  - frontend: missing (see http://d)\n  - invalid"
    );
    assert_eq!(api("x", None).message(), "x");
}

#[test]
fn unreadable_bodies_are_cut_short() {
    assert_eq!(body_snippet(b""), "<empty body>");
    assert_eq!(body_snippet(b" \n"), "<empty body>");
    assert_eq!(body_snippet(b" hi\xff "), "hi\u{fffd}");
    let exact = "é".repeat(200);
    assert_eq!(snippet_of(&exact), exact);
    assert_eq!(snippet_of(&"é".repeat(201)), format!("{exact}…"));
    assert_eq!(
        decode_failure(200, b"<html>"),
        "failed to decode response JSON (status 200 OK): <html>"
    );
    assert!(is_success(200) && is_success(299) && !is_success(199) && !is_success(300));
}

#[test]
fn requests_say_who_sends_them() {
    assert_eq!(
        client_headers("v1.2.3", "0.1.0"),
        vec![
            ("gbandit-client".to_string(), "gbandit-cli/v1.2.3".to_string()),
            ("x-gbandit-cli-version".to_string(), "0.1.0".to_string()),
            ("user-agent".to_string(), "gbandit-cli".to_string())
        ]
    );
}

#[test]
fn the_platform_has_these_addresses() {
    let c = PlatformClient { token: "t".to_string(), origin: "http://p/api".to_string() };
    assert_eq!(c.project_url("g"), "http://p/api/projects/g");
    assert_eq!(
        c.query_url("g", "dev"),
        "http://p/api/projects/g/database/query?environment=dev"
    );
    assert_eq!(c.deploys_url("g", "prod"), "http://p/api/projects/g/deploys?environment=prod");
    assert_eq!(
        c.baseline_url("g", "dev"),
        "http://p/api/projects/g/deploys/baseline?environment=dev"
    );
    assert_eq!(c.migrations_url("g"), "http://p/api/projects/g/migrations?environment=dev");
    assert_eq!(
        c.logs_url("g", "backend", "dev"),
        "http://p/api/projects/g/logs?source=backend&environment=dev&limit=1000"
    );
    assert_eq!(c.env_url("g", "dev"), "http://p/api/projects/g/env?environment=dev");
    assert_eq!(c.env_key_url("g", "K", "dev"), "http://p/api/projects/g/env/K?environment=dev");
    assert_eq!(c.availability_url("g"), "http://p/api/projects/g/availability");
    assert_eq!(c.game_profile_url("g"), "http://p/api/projects/g/game-profile");
    assert_eq!(c.projects_url(), "http://p/api/projects");
    assert_eq!(c.stream_url(-5), "http://p/api/pipelines/-5/stream");
}

#[test]
fn requests_are_sent_three_times_at_most() {
    assert_eq!(after_send(0, Sent::Broken), AfterSend::SendAgain { pause_ms: 250 });
    assert_eq!(after_send(1, Sent::Broken), AfterSend::SendAgain { pause_ms: 500 });
    assert_eq!(after_send(2, Sent::Broken), AfterSend::Fail);
    assert_eq!(after_send(0, Sent::Replied(503)), AfterSend::SendAgain { pause_ms: 250 });
    assert_eq!(after_send(2, Sent::Replied(503)), AfterSend::Accept);
    assert_eq!(after_send(0, Sent::Replied(409)), AfterSend::Accept);
    assert_eq!(after_send(1, Sent::Replied(200)), AfterSend::Accept);
    assert_eq!(after_send(0, Sent::Replied(600)), AfterSend::Accept);
}

#[test]
fn replies_are_told_apart() {
    assert!(baseline_skipped(200) && !baseline_skipped(202));
    assert_eq!(get_project(404), ProjectReply::Missing);
    assert_eq!(get_project(200), ProjectReply::Found);
    assert_eq!(get_project(201), ProjectReply::Failed);
    assert!(create_project(201) && !create_project(200));
    assert_eq!(delete_project("g", 202), Some(Ok(ProjectDeleteOutcome::Started)));
    assert_eq!(delete_project("g", 404), Some(Err("project 'g' not found".to_string())));
    assert_eq!(delete_project("g", 500), None);
    assert_eq!(slug_availability("free", true), Ok(SlugAvailability::Free));
    assert_eq!(slug_availability("taken", true), Ok(SlugAvailability::TakenByYou));
    assert_eq!(slug_availability("taken", false), Ok(SlugAvailability::TakenByOther));
    assert_eq!(slug_availability("deleting", false), Ok(SlugAvailability::Deleting));
    assert_eq!(
        slug_availability("odd", false),
        Err("unknown availability status 'odd'".to_string())
    );
}

#[test]
fn failures_name_what_was_attempted() {
    assert_eq!(query_attempt("g", "dev"), "query against project 'g' (dev) failed");
    assert_eq!(
        deploy_attempt_text("g", "dev", false),
        "failed to start deploy for project 'g' (dev)"
    );
    assert_eq!(
        deploy_attempt_text("g", "dev", true),
        "failed to start baseline deploy for project 'g' (dev)"
    );
    assert_eq!(migration_attempt("g"), "failed to start migration for project 'g'");
    assert_eq!(
        logs_attempt("g", "backend", "dev"),
        "failed to fetch backend logs for project 'g' (dev)"
    );
    assert_eq!(set_env_attempt("g", "dev"), "failed to set env vars for project 'g' (dev)");
    assert_eq!(list_env_attempt("g", "dev"), "failed to list env vars for project 'g' (dev)");
    assert_eq!(
        delete_env_failure("g", "K", "dev", "no"),
        "failed to delete env var K for project 'g' (dev): no"
    );
}

fn text(s: &str) -> Cell {
    Cell::Text(s.to_string())
}

#[test]
fn results_are_shown_as_a_table() {
    let result = QueryResponse {
        columns: vec!["id".to_string(), "name".to_string()],
        rows: vec![
            vec![Cell::Number("1".to_string()), text("ann")],
            vec![Cell::Number("100".to_string()), Cell::Null],
            vec![Cell::Bool(true)],
        ],
    };
    assert_eq!(
        QueryTable::new(&result).print(),
        vec![
            " id   | name ",
            "------+------",
            " 1    | ann  ",
            " 100  | NULL ",
            " true ",
            "(3 rows)"
        ]
    );
    let none = QueryResponse { columns: vec![], rows: vec![] };
    assert_eq!(
        QueryTable::new(&none).print(),
        vec!["Query executed successfully. No rows returned."]
    );
}

#[test]
fn widths_are_counted_in_bytes() {
    // Two bytes make the column two wide, and one character is padded to it.
    let result = QueryResponse {
        columns: vec!["c".to_string()],
        rows: vec![vec![text("é")], vec![text("x"), text("extra")]],
    };
    assert_eq!(
        QueryTable::new(&result).print(),
        vec![" c  ", "----", " é  ", " x  | extra ", "(2 rows)"]
    );
    assert_eq!(format_value(&Cell::Nested("[1]".to_string())), "[1]");
    assert_eq!(format_value(&Cell::Bool(false)), "false");
    assert_eq!(format_value(&Cell::Null), "NULL");
}
