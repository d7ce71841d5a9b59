use gbandit::config::{LocalDevConfig, ProjectConfig};
use gbandit::deploy_workflow::{
    bundle_part, confirm_create, confirm_database_removal_prompt, confirm_google_login, failure_event, fields_of, google_login_question,
    json_error_payload, link_shown, prepare_checkpoint, project_created, project_page, push_gate,
    push_or_abort, removal_question, terms, timing_line, upload_confirms, CreateStep,
    CredentialsStep, DeployArgs, DeployError, DeployWorkflow, Event, GitStep, Phase, ProjectStep,
    Upload,
};
use gbandit::git::GitRun;
use gbandit::http::{ApiError, ApiErrorIssue};
use gbandit::platform_client::{AfterSend, Sent};
use gbandit::printer::{Notice, Printer};

const PRINTER: Printer = Printer { verbose: false, timestamps: false, json: false };

fn shown(list: &[Notice]) -> Vec<String> {
    list.iter()
        .map(|n| match n {
            Notice::Progress(text) => text.clone(),
            Notice::Plain(text) => format!("plain {text}"),
            other => panic!("{other:?}"),
        })
        .collect()
}

fn config(project: &str, title: Option<&str>) -> ProjectConfig {
    ProjectConfig {
        project: project.to_string(),
        title: title.map(str::to_string),
        local_dev: LocalDevConfig { auto_commit: false },
    }
}

fn args(json: bool, detach: bool) -> DeployArgs {
    DeployArgs {
        environment: "dev".to_string(),
        message: None,
        baseline: false,
        create: false,
        confirm_database_removal: false,
        detach,
        json,
    }
}

fn api(code: Option<&str>) -> ApiError {
    ApiError { error: "no".to_string(), code: code.map(str::to_string), issues: vec![] }
}

fn ran(success: bool, stdout: &str, stderr: &str) -> GitRun {
    GitRun::Ran {
        success,
        stdout: stdout.as_bytes().to_vec(),
        stderr: stderr.as_bytes().to_vec(),
    }
}

#[test]
fn accounts_are_only_created_when_agreed_to() {
    let w = DeployWorkflow::new(&PRINTER);
    let a = args(false, false);
    assert!(matches!(w.ensure_credentials(&a, true, true, None), CredentialsStep::Ready));
    match w.ensure_credentials(&a, true, false, None) {
        CredentialsStep::Ask(q) => assert_eq!(q, "No account found. Continue as guest? [Y/n] "),
        other => panic!("{other:?}"),
    }
    assert!(matches!(
        w.ensure_credentials(&a, true, false, Some("\n")),
        CredentialsStep::CreateGuest
    ));
    assert!(matches!(
        w.ensure_credentials(&a, true, false, Some(" YES \n")),
        CredentialsStep::CreateGuest
    ));
    match w.ensure_credentials(&a, true, false, Some("n")) {
        CredentialsStep::Refuse(m) => assert!(m.starts_with("aborted: run `gbandit login`")),
        other => panic!("{other:?}"),
    }
    for (a, terminal) in [(args(true, false), true), (args(false, false), false)] {
        match w.ensure_credentials(&a, terminal, false, Some("y")) {
            CredentialsStep::Refuse(m) => assert!(m.starts_with("You are not logged in.")),
            other => panic!("{other:?}"),
        }
    }
}

#[test]
fn titles_are_kept_in_step() {
    let w = DeployWorkflow::new(&PRINTER);
    let c = config("p", Some(" New "));
    match w.ensure_project(&c, false, false, true, Some("Old"), None) {
        ProjectStep::Retitle { title, say } => {
            assert_eq!(title, "New");
            assert_eq!(shown(&say), vec!["Updated project title to \"New\"."]);
        }
        other => panic!("{other:?}"),
    }
    assert!(matches!(
        w.ensure_project(&c, false, false, true, Some("New"), None),
        ProjectStep::Keep
    ));
    assert!(matches!(
        w.ensure_project(&config("p", None), false, false, true, Some("Old"), None),
        ProjectStep::Keep
    ));
}

#[test]
fn projects_are_created_when_confirmed() {
    let w = DeployWorkflow::new(&PRINTER);
    let c = config("my-game", None);
    match w.ensure_project(&c, true, true, false, None, None) {
        ProjectStep::Create { title, say } => {
            assert_eq!(title, "My Game");
            assert_eq!(
                shown(&say),
                vec!["Creating project 'my-game' (title: \"My Game\") on the platform..."]
            );
        }
        other => panic!("{other:?}"),
    }
    match w.ensure_project(&c, false, false, true, None, None) {
        ProjectStep::Ask(q) => assert_eq!(
            q,
            "Project 'my-game' does not exist on the platform (or you are not a member of it). If gbandit.jsonc's \"project\" was edited, answer no and change it back. Create it? [Y/n] "
        ),
        other => panic!("{other:?}"),
    }
    match w.ensure_project(&c, false, false, true, None, Some("no")) {
        ProjectStep::Refuse(m) => assert_eq!(m, "aborted: project 'my-game' was not created"),
        other => panic!("{other:?}"),
    }
    match w.ensure_project(&config("p", Some(" T ")), false, false, true, None, Some("y")) {
        ProjectStep::Create { title, .. } => assert_eq!(title, "T"),
        other => panic!("{other:?}"),
    }
    match confirm_create("p", true, true, None) {
        CreateStep::Refuse(m) => assert_eq!(
            m,
            "project 'p' does not exist on the platform (or you are not a member of it). If gbandit.jsonc's \"project\" was edited, change it back; pass --create to create 'p' on deploy"
        ),
        other => panic!("{other:?}"),
    }
    assert_eq!(shown(&project_created("p")), vec!["Project 'p' created."]);
}

fn checkpoint(auto_commit: bool, message: Option<&str>, runs: Vec<GitRun>) -> (Vec<String>, String) {
    match prepare_checkpoint(auto_commit, "dev", message, &runs) {
        GitStep::Run { say, args } => (shown(&say), format!("run {}", args.join(" "))),
        GitStep::Finished { say, result: Ok(sha) } => (shown(&say), format!("sha {sha:?}")),
        GitStep::Finished { say, result: Err(f) } => (shown(&say), format!("fault {}", f.message)),
    }
}

#[test]
fn a_dirty_tree_is_committed_where_asked_for() {
    let none: Vec<String> = vec![];
    assert_eq!(
        checkpoint(true, None, vec![]),
        (none.clone(), "run rev-parse --is-inside-work-tree".to_string())
    );
    assert_eq!(
        checkpoint(true, None, vec![ran(true, "true", "")]),
        (none.clone(), "run status --porcelain".to_string())
    );
    assert_eq!(
        checkpoint(true, None, vec![ran(true, "", ""), ran(true, " M a", "")]),
        (vec!["Auto-committing working tree...".to_string()], "run add -A".to_string())
    );
    let dirty = || vec![ran(true, "", ""), ran(true, " M a", ""), ran(true, "", "")];
    assert_eq!(
        checkpoint(true, None, dirty()),
        (none.clone(), "run commit -m gbandit deploy dev".to_string())
    );
    assert_eq!(
        checkpoint(true, Some("why"), dirty()),
        (none.clone(), "run commit -m why".to_string())
    );
    let mut runs = dirty();
    runs.push(ran(true, "", ""));
    assert_eq!(checkpoint(true, None, runs).1, "run rev-parse HEAD");
    let mut runs = dirty();
    runs.push(ran(true, "", ""));
    runs.push(ran(true, "abc\n", ""));
    assert_eq!(checkpoint(true, None, runs), (none.clone(), "sha Some(\"abc\")".to_string()));
    let mut runs = dirty();
    runs.push(ran(false, "", "hook"));
    assert_eq!(checkpoint(true, None, runs).1, "fault `git commit` failed: hook");
}

#[test]
fn a_clean_tree_is_deployed_as_it_is() {
    for auto_commit in [true, false] {
        let clean = || vec![ran(true, "", ""), ran(true, "", "")];
        assert_eq!(checkpoint(auto_commit, None, clean()).1, "run rev-parse HEAD");
        let mut runs = clean();
        runs.push(ran(true, "abc\n", ""));
        assert_eq!(checkpoint(auto_commit, None, runs), (vec![], "sha Some(\"abc\")".to_string()));
    }
}

#[test]
fn a_dirty_tree_goes_out_without_a_commit_where_not() {
    let dirty = || vec![ran(true, "", ""), ran(true, " M a", "")];
    assert_eq!(checkpoint(false, None, dirty()), (vec![], "run rev-parse HEAD".to_string()));
    let mut runs = dirty();
    runs.push(ran(true, "abc\n", ""));
    assert_eq!(
        checkpoint(false, None, runs),
        (
            vec!["Deploying uncommitted local changes. Linked remote will not be pushed; the Gbandit Agent will not see these changes unless you commit/push/sync them.".to_string()],
            "sha None".to_string()
        )
    );
}

#[test]
fn without_a_repository_only_commits_are_missed() {
    assert_eq!(
        checkpoint(false, None, vec![ran(false, "", "")]),
        (
            vec!["Skipping deploy checkpoint: not a git repository.".to_string()],
            "sha None".to_string()
        )
    );
    assert!(checkpoint(true, None, vec![ran(false, "", "")])
        .1
        .starts_with("fault deploy checkpoints require a git repository"));
    assert_eq!(
        checkpoint(false, None, vec![ran(true, "", ""), ran(false, "", "odd")]),
        (
            vec!["Skipping deploy checkpoint: `git status` failed: odd".to_string()],
            "sha None".to_string()
        )
    );
    assert_eq!(
        checkpoint(true, None, vec![ran(true, "", ""), ran(false, "", "odd")]).1,
        "fault `git status` failed: odd"
    );
}

fn pushing(step: GitStep<()>) -> (Vec<String>, String) {
    match step {
        GitStep::Run { say, args } => (shown(&say), format!("run {}", args.join(" "))),
        GitStep::Finished { say, result: Ok(()) } => (shown(&say), "ok".to_string()),
        GitStep::Finished { say, result: Err(f) } => (shown(&say), f.message),
    }
}

#[test]
fn a_deploy_waits_for_its_push() {
    let origin = || ran(true, "git@x", "");
    assert_eq!(pushing(push_or_abort(&vec![])).1, "run remote get-url origin");
    assert_eq!(pushing(push_or_abort(&vec![ran(false, "", "")])), (vec![], "ok".to_string()));
    assert_eq!(
        pushing(push_or_abort(&vec![origin()])),
        (
            vec!["Pushing to linked remote...".to_string()],
            "run remote get-url origin".to_string()
        )
    );
    assert_eq!(
        pushing(push_or_abort(&vec![origin(), ran(false, "", "")])),
        (vec![], "ok".to_string())
    );
    assert_eq!(
        pushing(push_or_abort(&vec![origin(), origin()])).1,
        "run push origin HEAD:main"
    );
    assert_eq!(
        pushing(push_or_abort(&vec![origin(), origin(), ran(true, "", "")])),
        (vec!["Push succeeded.".to_string()], "ok".to_string())
    );
    let after = |stderr: &str| {
        pushing(push_or_abort(&vec![origin(), origin(), ran(false, "", stderr)])).1
    };
    assert_eq!(
        after("fetch first"),
        "push rejected (non-fast-forward) — pull from the linked remote and retry. If you're in Pi, ask it to use the pull_remote skill. From a laptop, run `git pull --rebase`. Aborting deploy.\n\nfetch first"
    );
    assert_eq!(
        after("network is unreachable"),
        "push failed — network unreachable. Aborting deploy so the Checkpoint stays in sync with the remote.\n\nnetwork is unreachable"
    );
    assert_eq!(
        after("publickey"),
        "push failed — authentication rejected. Looks like the Deploy Key isn't installed any more (or your laptop's git credentials are wrong). Reconnect from the Settings page or fix your local credentials, then retry. Aborting deploy.\n\npublickey"
    );
    assert_eq!(after("odd"), "`git push` failed: odd");
}

#[test]
fn the_remote_is_left_alone_unless_asked_for() {
    let origin = || ran(true, "git@x", "");
    assert_eq!(pushing(push_gate(true, false, &vec![])), (vec![], "ok".to_string()));
    assert_eq!(pushing(push_gate(true, true, &vec![])).1, "run remote get-url origin");
    assert_eq!(pushing(push_gate(false, true, &vec![])).1, "run remote get-url origin");
    assert_eq!(
        pushing(push_gate(false, true, &vec![origin()])),
        (
            vec!["Skipping push to linked remote (auto_commit=false). Push when you want this commit on the remote.".to_string()],
            "ok".to_string()
        )
    );
    assert_eq!(
        pushing(push_gate(false, true, &vec![ran(true, "", "")])),
        (vec![], "ok".to_string())
    );
}

fn pairs(list: Vec<(String, String)>) -> Vec<String> {
    list.into_iter().map(|(k, v)| format!("{k}={v}")).collect()
}

#[test]
fn an_upload_says_what_it_confirms() {
    assert_eq!(
        pairs(fields_of("id", Some("abc"), Some("msg"), true)),
        vec![
            "submission_id=id",
            "commit_sha=abc",
            "deploy_message=msg",
            "confirm_database_removal=true"
        ]
    );
    assert_eq!(pairs(fields_of("id", None, None, false)), vec!["submission_id=id"]);
    let part = bundle_part();
    assert_eq!((part.name, part.file_name, part.mime), ("bundle", "project.tar.zst", "application/zstd"));
}

#[test]
fn every_upload_has_an_id_of_its_own() {
    let w = DeployWorkflow::new(&PRINTER);
    let one = w.upload(None, Some("m"), false, b"zst");
    let other = w.upload(None, Some("m"), false, b"zst");
    let (first, second) = (one.fields(), other.fields());
    assert_eq!(first.len(), 2);
    assert_eq!(first[0].0, "submission_id");
    let id = uuid::Uuid::parse_str(&first[0].1).unwrap();
    assert_eq!(id.get_version_num(), 4);
    assert_eq!(id.to_string(), first[0].1);
    for (i, c) in first[0].1.chars().enumerate() {
        match i {
            8 | 13 | 18 | 23 => assert_eq!(c, '-'),
            14 => assert_eq!(c, '4'),
            19 => assert!("89ab".contains(c)),
            _ => assert!("0123456789abcdef".contains(c)),
        }
    }
    assert_ne!(first[0].1, second[0].1);
    assert_eq!(first[1], second[1]);
}

#[test]
fn every_send_of_an_upload_carries_one_form() {
    let mut upload = Upload::new("id", Some("abc"), None, true, b"zst");
    for pause_ms in [250, 500] {
        assert_eq!(
            pairs(upload.fields().clone()),
            vec!["submission_id=id", "commit_sha=abc", "confirm_database_removal=true"]
        );
        assert_eq!(upload.bundle(), b"zst");
        assert_eq!(upload.after(Sent::Broken), AfterSend::SendAgain { pause_ms });
    }
    assert_eq!(upload.fields().len(), 3);
    assert_eq!(upload.fields()[0].1, "id");
    assert_eq!(upload.bundle(), b"zst");
    assert_eq!(upload.after(Sent::Broken), AfterSend::Fail);

    let mut upload = Upload::new("id", None, None, false, b"");
    assert_eq!(upload.after(Sent::Replied(503)), AfterSend::SendAgain { pause_ms: 250 });
    assert_eq!(upload.after(Sent::Replied(422)), AfterSend::Accept);
}

#[test]
fn an_upload_is_followed_unless_detached() {
    let w = DeployWorkflow::new(&PRINTER);
    let c = config("p", None);
    let attempt = |json: bool, detach: bool, id: Option<i64>| {
        let (say, watch) = w.deploy_attempt(&c, &args(json, detach), id);
        (shown(&say), watch)
    };
    assert_eq!(
        attempt(false, false, Some(7)),
        (vec!["Deploying dev for project p...".to_string()], Some(7))
    );
    assert_eq!(
        attempt(false, true, Some(7)),
        (vec!["Started dev deployment for project p (#7).".to_string()], None)
    );
    assert_eq!(
        attempt(true, true, Some(7)),
        (vec!["plain {\"pipeline_run_id\":7}".to_string()], None)
    );
    assert_eq!(
        attempt(true, false, Some(-7)),
        (
            vec![
                "plain {\"pipeline_run_id\":-7}".to_string(),
                "Deploying dev for project p...".to_string()
            ],
            Some(-7)
        )
    );
    assert_eq!(
        attempt(false, false, None),
        (
            vec!["Baseline deploy skipped — the project already has a succeeded deploy.".to_string()],
            None
        )
    );
    assert_eq!(
        attempt(true, false, None),
        (vec!["plain {\"status\":\"baseline_skipped\"}".to_string()], None)
    );
}

#[test]
fn a_deploy_goes_through_its_phases() {
    let w = DeployWorkflow::new(&PRINTER);
    let t = terms(&config("p", None), &args(false, false), true);
    assert!(t.interactive && t.offers_link);
    let mut phase = w.begin();
    let mut seen = vec![phase];
    while phase != Phase::Succeeded {
        phase = w.deploy_inner(&t, phase, &Event::Done).phase;
        seen.push(phase);
    }
    assert_eq!(
        seen,
        vec![
            Phase::Credentials,
            Phase::Project,
            Phase::Checkpoint,
            Phase::Push,
            Phase::Archive,
            Phase::First,
            Phase::Link,
            Phase::Succeeded
        ]
    );
    let quiet = terms(&config("p", None), &args(true, false), true);
    assert!(!quiet.interactive && !quiet.offers_link);
    assert_eq!(w.deploy_inner(&quiet, Phase::First, &Event::Done).phase, Phase::Succeeded);
    for phase in [Phase::Credentials, Phase::Project, Phase::Checkpoint, Phase::Push, Phase::Archive, Phase::First] {
        assert_eq!(w.deploy_inner(&t, phase, &Event::Failed).phase, Phase::Stopped);
    }
}

#[test]
fn guests_may_sign_in_and_try_again() {
    let w = DeployWorkflow::new(&PRINTER);
    let t = terms(&config("p", None), &args(false, false), true);
    let step = w.deploy_inner(&t, Phase::First, &Event::Refused(api(Some("google_account_required"))));
    assert_eq!(step.phase, Phase::AskGoogle);
    assert_eq!(shown(&step.say), vec!["no"]);
    assert_eq!(
        google_login_question(),
        "Sign in with Google now? Your guest account and its projects are kept. [Y/n] "
    );
    assert!(confirm_google_login("\n"));
    assert!(!confirm_google_login("no"));
    let yes = w.deploy_inner(&t, Phase::AskGoogle, &Event::Typed("\n".to_string()));
    assert_eq!(yes.phase, Phase::SignIn);
    let no = w.deploy_inner(&t, Phase::AskGoogle, &Event::Typed("n\n".to_string()));
    assert_eq!(no.phase, Phase::Rejected);
    assert_eq!(w.deploy_inner(&t, Phase::SignIn, &Event::Done).phase, Phase::Second);
    assert_eq!(w.deploy_inner(&t, Phase::Second, &Event::Done).phase, Phase::Link);
    // Signing in is offered once.
    let again = w.deploy_inner(&t, Phase::Second, &Event::Refused(api(Some("google_account_required"))));
    assert_eq!(again.phase, Phase::Rejected);
    assert!(again.say.is_empty());
}

#[test]
fn a_database_is_removed_for_a_typed_name_only() {
    let w = DeployWorkflow::new(&PRINTER);
    let t = terms(&config("p", None), &args(false, false), true);
    let code = "database_removal_requires_confirmation";
    for phase in [Phase::First, Phase::Second] {
        let step = w.deploy_inner(&t, phase, &Event::Refused(api(Some(code))));
        assert_eq!(step.phase, Phase::AskRemoval);
        assert_eq!(shown(&step.say), vec!["no"]);
    }
    assert_eq!(removal_question(), "Type the project name to confirm removing the database: ");
    let typed = w.deploy_inner(&t, Phase::AskRemoval, &Event::Typed(" p\n".to_string()));
    assert_eq!(typed.phase, Phase::Confirmed);
    assert!(typed.error.is_none());
    let other = w.deploy_inner(&t, Phase::AskRemoval, &Event::Typed("y\n".to_string()));
    assert_eq!(other.phase, Phase::Stopped);
    assert_eq!(
        other.error.as_deref(),
        Some("aborted: typed value did not match the project name")
    );
    assert!(confirm_database_removal_prompt("p", "p").is_ok());
    assert!(confirm_database_removal_prompt("p", "P").is_err());
    assert!(upload_confirms(&t, Phase::Confirmed));
    assert!(!upload_confirms(&t, Phase::First) && !upload_confirms(&t, Phase::Second));

    let mut confirmed = args(false, false);
    confirmed.confirm_database_removal = true;
    let t = terms(&config("p", None), &confirmed, true);
    assert!(upload_confirms(&t, Phase::First));
    assert_eq!(
        w.deploy_inner(&t, Phase::First, &Event::Refused(api(Some(code)))).phase,
        Phase::Rejected
    );
}

#[test]
fn nobody_is_asked_who_is_not_there() {
    let w = DeployWorkflow::new(&PRINTER);
    for (json, terminal) in [(true, true), (false, false)] {
        let t = terms(&config("p", None), &args(json, false), terminal);
        for code in ["google_account_required", "database_removal_requires_confirmation"] {
            let step = w.deploy_inner(&t, Phase::First, &Event::Refused(api(Some(code))));
            assert_eq!(step.phase, Phase::Rejected);
            assert!(step.say.is_empty());
        }
    }
    let t = terms(&config("p", None), &args(false, false), true);
    assert_eq!(w.deploy_inner(&t, Phase::First, &Event::Refused(api(None))).phase, Phase::Rejected);
    assert!(matches!(failure_event(Phase::Second, Some(api(None))), Event::Refused(_)));
    assert!(matches!(failure_event(Phase::Project, Some(api(None))), Event::Failed));
    assert!(matches!(failure_event(Phase::First, None), Event::Failed));
}

#[test]
fn a_failure_is_one_line_of_json() {
    let w = DeployWorkflow::new(&PRINTER);
    let other = DeployError::Other("a \"b\"\n: c".to_string());
    assert_eq!(
        json_error_payload(&other),
        "{\"error\":\"a \\\"b\\\"\\n: c\",\"status\":\"error\"}"
    );
    let bare = DeployError::Api(api(None));
    assert_eq!(json_error_payload(&bare), "{\"error\":\"no\",\"status\":\"error\"}");
    let full = DeployError::Api(ApiError {
        error: "bad".to_string(),
        code: Some("invalid_config".to_string()),
        issues: vec![
            ApiErrorIssue {
                path: Some("frontend".to_string()),
                message: Some("missing".to_string()),
                docs_url: Some("http://d".to_string()),
            },
            ApiErrorIssue { path: None, message: None, docs_url: None },
            ApiErrorIssue { path: None, message: Some("é".to_string()), docs_url: None },
        ],
    });
    let line = json_error_payload(&full);
    assert_eq!(
        line,
        "{\"code\":\"invalid_config\",\"error\":\"bad\",\"issues\":[{\"docs_url\":\"http://d\",\"message\":\"missing\",\"path\":\"frontend\"},{},{\"message\":\"é\"}],\"status\":\"error\"}"
    );
    let value: serde_json::Value = serde_json::from_str(&line).unwrap();
    assert_eq!(value.to_string(), line);

    assert!(w.deploy(&args(false, false), Some(&bare)).is_none());
    assert!(w.deploy(&args(true, false), None).is_none());
    match w.deploy(&args(true, false), Some(&bare)) {
        Some(Notice::Plain(text)) => {
            assert_eq!(text, "{\"error\":\"no\",\"status\":\"error\"}")
        }
        other => panic!("{other:?}"),
    }
}

#[test]
fn the_link_leads_to_the_project() {
    assert_eq!(project_page("http://w", "p"), "http://w/projects/p");
    assert_eq!(
        shown(&link_shown("http://l")),
        vec!["View your project in the browser (one-time sign-in link, valid 10 minutes): http://l"]
    );
    assert_eq!(timing_line("archive", 120), "@timing phase=archive ms=120");
    assert_eq!(timing_line("upload", 0), "@timing phase=upload ms=0");
}
