use gbandit::cli::{printer_for, Command, EnvAction, Environment};
use gbandit::commands::{needs_config, run, Task};
use gbandit::config::{
    auth_origin, config_from, docs_origin, load_project_config, parse_config, platform_api_origin,
    platform_web_origin, read_gbandit_jsonc, resolve_project, shallow, ConfigFile,
};
use gbandit::nesting::nesting_of;
use gbandit::outside::MAX_NESTING;

fn found(text: &str) -> ConfigFile {
    ConfigFile::Text { text: text.to_string(), refusal: "missing field `project`".to_string() }
}

#[test]
fn parses_jsonc_and_ignores_server_owned_fields() {
    let cfg = parse_config(
        r#"{
                // comment
                "project": "my-game",
                "title": "My Game",
                "frontend": { "dockerfile": "frontend/Dockerfile", "context": "frontend" },
                "backend": { "dockerfile": "backend/Dockerfile", "context": "backend", "volume": { "sqlite": true } },
                "local_dev": { "auto_commit": true },
            }"#,
        "",
    )
    .unwrap();
    assert_eq!(cfg.project, "my-game");
    assert_eq!(cfg.title.as_deref(), Some("My Game"));
    assert!(cfg.auto_commit(false));
}

#[test]
fn minimal_config_defaults_auto_commit_off() {
    let cfg = parse_config(r#"{ "project": "p" }"#, "").unwrap();
    assert_eq!(cfg.project, "p");
    assert_eq!(cfg.title, None);
    assert!(!cfg.local_dev.auto_commit);
}

#[test]
fn an_agent_always_commits() {
    let cfg = parse_config(r#"{ "project": "p" }"#, "").unwrap();
    assert!(!cfg.auto_commit(false));
    assert!(cfg.auto_commit(true));
}

#[test]
fn fields_may_stand_in_an_array() {
    let cfg = parse_config(r#"["p", null, { "auto_commit": true }]"#, "").unwrap();
    assert_eq!(cfg.project, "p");
    assert_eq!(cfg.title, None);
    assert!(cfg.local_dev.auto_commit);
    let nested = parse_config(r#"["p", "t", [true]]"#, "").unwrap();
    assert!(nested.local_dev.auto_commit);
    assert_eq!(nested.title.as_deref(), Some("t"));
}

#[test]
fn what_is_no_configuration_is_refused() {
    let schema = "failed to read gbandit.jsonc — schema: https://docs.gbandit.com/deploy#gbandit-jsonc (or run: gbandit docs deploy)";
    for text in [
        "{}",
        "[]",
        "1",
        "null",
        r#"{ "project": 1 }"#,
        r#"{ "project": null }"#,
        r#"{ "project": "p", "title": 3 }"#,
        r#"{ "project": "p", "local_dev": null }"#,
        r#"{ "project": "p", "local_dev": true }"#,
        r#"{ "project": "p", "local_dev": { "auto_commit": 1 } }"#,
        r#"{ "project": "p", "local_dev": { "auto_commit": null } }"#,
        r#"["p", "t", [true, true]]"#,
        r#"["p", "t", {}, 1]"#,
    ] {
        let fault = parse_config(text, "serde says so").unwrap_err();
        assert_eq!(fault.message, schema, "{text}");
        assert_eq!(fault.cause.as_deref(), Some("serde says so"));
    }
}

#[test]
fn configurations_agree_with_serde() {
    let texts = [
        r#"{ "project": "p" }"#,
        r#"{ "project": "p", "title": null }"#,
        r#"{ "title": "t", "project": "p", "x": [1, { "project": "q" }] }"#,
        r#"{ "project": "p", "local_dev": {} }"#,
        r#"{ "project": "p", "local_dev": { "auto_commit": false, "other": 1 } }"#,
        r#"{ "project": "p", "local_dev": [] }"#,
        r#"{ "project": "é\n" }"#,
        r#"{ "project": "first", "project": "second" }"#,
    ];
    for text in texts {
        let cfg = parse_config(text, "").unwrap();
        let value = jsonc_parser::parse_to_serde_value(text, &Default::default())
            .unwrap()
            .unwrap();
        assert_eq!(Some(cfg.project.as_str()), value["project"].as_str(), "{text}");
        assert_eq!(cfg.title.as_deref(), value["title"].as_str(), "{text}");
    }
}

#[test]
fn empty_and_broken_files_are_told_apart() {
    assert_eq!(parse_config("", "").unwrap_err().message, "gbandit.jsonc is empty");
    assert_eq!(
        parse_config("// nothing here\n", "").unwrap_err().message,
        "gbandit.jsonc is empty"
    );
    let text = "{ \"project\": ";
    let why = jsonc_parser::parse_to_serde_value(text, &Default::default()).unwrap_err();
    assert_eq!(
        parse_config(text, "").unwrap_err().message,
        format!("failed to parse gbandit.jsonc: {why}")
    );
    assert_eq!(
        config_from(Err("why".to_string()), "words").unwrap_err().message,
        "failed to parse gbandit.jsonc: why"
    );
    assert_eq!(config_from(Ok(None), "words").unwrap_err().message, "gbandit.jsonc is empty");
}

#[test]
fn a_missing_file_is_told_apart_from_an_unreadable_one() {
    let absent = read_gbandit_jsonc(&ConfigFile::Absent).unwrap_err();
    assert_eq!(
        absent.message,
        "no --project flag and no gbandit.jsonc found in the current directory"
    );
    let locked = read_gbandit_jsonc(&ConfigFile::Unreadable("denied".to_string())).unwrap_err();
    assert_eq!(locked.message, "failed to read gbandit.jsonc");
    assert_eq!(locked.cause.as_deref(), Some("denied"));
}

#[test]
fn a_named_project_wins() {
    let file = found(r#"{ "project": "p", "title": "T", "local_dev": { "auto_commit": true } }"#);
    assert_eq!(resolve_project(Some("q".to_string()), &file).unwrap(), "q");
    assert_eq!(resolve_project(None, &file).unwrap(), "p");
    assert!(resolve_project(None, &ConfigFile::Absent).is_err());

    let cfg = load_project_config(Some("q".to_string()), &file).unwrap();
    assert_eq!(cfg.project, "q");
    assert_eq!(cfg.title.as_deref(), Some("T"));
    assert!(cfg.local_dev.auto_commit);

    let bare = load_project_config(Some("q".to_string()), &ConfigFile::Absent).unwrap();
    assert_eq!(bare.project, "q");
    assert_eq!(bare.title, None);
    assert!(!bare.local_dev.auto_commit);

    assert!(load_project_config(None, &ConfigFile::Absent).is_err());
}

#[test]
fn origins_have_defaults() {
    assert_eq!(auth_origin(None), "https://auth.gbandit.com");
    assert_eq!(docs_origin(None), "https://docs.gbandit.com");
    assert_eq!(platform_api_origin(None), "https://platform.gbandit.com/api");
    assert_eq!(auth_origin(Some("http://a".to_string())), "http://a");
    assert_eq!(docs_origin(Some("http://d".to_string())), "http://d");
    assert_eq!(platform_api_origin(Some("http://p/api".to_string())), "http://p/api");
    assert_eq!(platform_web_origin("http://p/api".to_string()), "http://p");
    assert_eq!(platform_web_origin("http://p/api/".to_string()), "http://p/api/");
    assert_eq!(platform_web_origin("http://p/api/api".to_string()), "http://p/api");
}

#[test]
fn commands_take_their_project_from_the_configuration() {
    let file = found(r#"{ "project": "p" }"#);
    let sql = Command::Sql {
        query: "SELECT 1".to_string(),
        environment: Environment::Prod,
        project: None,
    };
    assert!(needs_config(&sql));
    match run(sql, &file).unwrap() {
        Task::Sql { environment, project, query } => {
            assert_eq!(environment.as_str(), "prod");
            assert_eq!(project, "p");
            assert_eq!(query, "SELECT 1");
        }
        other => panic!("{other:?}"),
    }

    let set = Command::Env {
        action: EnvAction::Assign {
            pairs: vec!["A=1".to_string()],
            environment: Environment::Dev,
            project: Some("q".to_string()),
        },
    };
    assert!(!needs_config(&set));
    match run(set, &ConfigFile::Absent).unwrap() {
        Task::EnvSet { environment, project, pairs } => {
            assert_eq!(environment.as_str(), "dev");
            assert_eq!(project, "q");
            assert_eq!(pairs, vec!["A=1".to_string()]);
        }
        other => panic!("{other:?}"),
    }

    let list = Command::Env {
        action: EnvAction::List { environment: Environment::Dev, project: None },
    };
    assert!(run(list, &ConfigFile::Absent).is_err());
}

#[test]
fn commands_work_on_the_development_environment() {
    assert_eq!(Environment::default(), Environment::Dev);
    assert_eq!(Environment::default().as_str(), "dev");
}

#[test]
fn a_login_may_be_that_of_a_guest() {
    assert!(matches!(
        run(Command::Login { guest: true }, &ConfigFile::Absent),
        Ok(Task::LoginGuest)
    ));
    assert!(matches!(
        run(Command::Login { guest: false }, &ConfigFile::Absent),
        Ok(Task::Login)
    ));
    assert!(!needs_config(&Command::Login { guest: false }));
}

#[test]
fn a_deploy_carries_its_flags() {
    let command = Command::Deploy {
        environment: Environment::Prod,
        project: Some("q".to_string()),
        message: Some("m".to_string()),
        baseline: true,
        create: false,
        confirm_database_removal: true,
        detach: false,
        json: true,
    };
    assert!(needs_config(&command));
    let printer = printer_for(true, false, &command);
    assert!(printer.verbose && !printer.timestamps && printer.json);
    match run(command, &ConfigFile::Absent).unwrap() {
        Task::Deploy { config, args } => {
            assert_eq!(config.project, "q");
            assert_eq!(args.environment, "prod");
            assert_eq!(args.message.as_deref(), Some("m"));
            assert!(args.baseline && !args.create && args.confirm_database_removal);
            assert!(!args.detach && args.json);
        }
        other => panic!("{other:?}"),
    }
    assert!(!printer_for(false, true, &Command::Logout).json);
}

#[test]
fn nesting_is_counted_outside_strings_and_comments() {
    for (text, levels) in [
        ("", 0),
        ("1", 0),
        ("[]", 1),
        ("[[], {}, []]", 2),
        ("{ \"a\": [{}], \"b\": {} }", 3),
        ("[\"[[[\", '{{', \"\\\"[[\"]", 1),
        ("[ // [[[\n [ /* {{ * { ** / */ [] ] ]", 3),
        ("/*/ [ */ [", 1),
        ("/**/[[", 2),
        ("]]]][[", 2),
    ] {
        assert_eq!(nesting_of(text), levels, "{text}");
    }
}

#[test]
fn deep_texts_are_told_from_shallow_ones() {
    // The object around it is a level of its own.
    let nested = |levels: usize| {
        let (open, close) = ("[".repeat(levels), "]".repeat(levels));
        format!("{{ \"project\": \"p\", \"x\": {open}{close} }}")
    };
    assert!(shallow(""));
    assert!(shallow(&nested(MAX_NESTING - 1)));
    assert!(!shallow(&nested(MAX_NESTING)));
    assert!(!shallow(&"[".repeat(1_000_000)));
    assert_eq!(parse_config(&nested(MAX_NESTING - 1), "").unwrap().project, "p");

    let many = format!("{{ \"project\": \"p\", \"x\": [{}] }}", "[],".repeat(10_000));
    assert_eq!(parse_config(&many, "").unwrap().project, "p");
}

#[test]
fn a_refused_file_says_what_is_wrong_with_it() {
    let file = found("{}");
    for fault in [
        read_gbandit_jsonc(&file).unwrap_err(),
        resolve_project(None, &file).unwrap_err(),
        load_project_config(None, &file).unwrap_err(),
    ] {
        assert!(fault.message.starts_with("failed to read gbandit.jsonc — schema: "));
        assert_eq!(fault.cause.as_deref(), Some("missing field `project`"));
    }
    assert!(read_gbandit_jsonc(&found("")).unwrap_err().cause.is_none());
    assert!(read_gbandit_jsonc(&found("[")).unwrap_err().cause.is_none());
}
