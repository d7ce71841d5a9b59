use gbandit::config::parse_config;
use gbandit::new_command::{closing as closing_new, creating, is_in_place, scaffolding, slug_source, SlugSource};
use gbandit::platform_client::SlugAvailability;
use gbandit::printer::Notice;
use gbandit::scaffold::{
    clone_args, collect_text_files, fresh_config_name, git_failed, git_not_started, is_valid_slug,
    is_walked, looks_like_text, scaffold_project, slugify, substitute_placeholders,
    target_not_empty, title_from_slug, underscored_slug, write_gbandit_json, Node, ScaffoldStep,
};
use gbandit::scaffold_command::{
    check_named_slug, closing, not_logged_in, opening, prompt_available_slug, prompt_required,
    prompt_text, prompt_with_default, request, run, target_path, validate,
    validate_slug_input, validate_title_input, Dialog, Field, SlugChoice,
};

#[test]
fn slugs_are_short_and_plain() {
    let long = "a".repeat(63);
    for ok in ["a", "0", "my-game", "a--b", "dev-x", long.as_str()] {
        assert!(is_valid_slug(ok), "{ok}");
    }
    let longer = "a".repeat(64);
    for bad in ["", "-a", "a-", "A", "a_b", "é", "a b", longer.as_str()] {
        assert!(!is_valid_slug(bad), "{bad}");
    }
}

#[test]
fn titles_suggest_slugs() {
    assert_eq!(slugify("My Game"), "my-game");
    assert_eq!(slugify("  Émile's  GAME!! "), "mile-s-game");
    assert_eq!(slugify("a_b--c"), "a-b-c");
    assert_eq!(slugify("!!!"), "");
    assert_eq!(slugify(""), "");
    let long = format!("{} {}", "a".repeat(62), "b".repeat(10));
    assert_eq!(slugify(&long), "a".repeat(62));
    for title in ["My Game", "--x--", "1 2 3", long.as_str()] {
        let slug = slugify(title);
        assert!(is_valid_slug(&slug));
        assert_eq!(slugify(&slug), slug);
    }
    assert_eq!(title_from_slug("my-game"), "My Game");
    assert_eq!(title_from_slug("x2"), "X2");
    assert_eq!(title_from_slug("2d-game"), "2d Game");
}

#[test]
fn names_are_checked() {
    let slug = |s: &str| validate_slug_input(s).err();
    assert_eq!(slug("ok"), None);
    assert_eq!(slug("").as_deref(), Some("slug must be 1–63 characters"));
    assert_eq!(slug(&"a".repeat(64)).as_deref(), Some("slug must be 1–63 characters"));
    assert_eq!(slug(&"é".repeat(32)).as_deref(), Some("slug must be 1–63 characters"));
    assert_eq!(slug("-a").as_deref(), Some("slug must start and end with [a-z0-9]"));
    assert_eq!(slug("a-").as_deref(), Some("slug must start and end with [a-z0-9]"));
    assert_eq!(slug("a_b").as_deref(), Some("slug may only contain [a-z0-9-]"));
    for prefix in ["dev-", "stage-", "prod-"] {
        assert_eq!(
            slug(&format!("{prefix}x")),
            Some(format!("slug may not start with reserved prefix '{prefix}'"))
        );
    }
    assert_eq!(slug("development"), None);
    let title = |s: &str| validate_title_input(s).err();
    assert_eq!(title("My Game"), None);
    assert_eq!(title(&"é".repeat(80)), None);
    assert_eq!(title("").as_deref(), Some("title cannot be empty"));
    assert_eq!(title(&"é".repeat(81)).as_deref(), Some("title must be 80 characters or fewer"));
    assert_eq!(title("a\tb").as_deref(), Some("title may not contain control characters"));
    assert!(validate(Field::Slug, "a b").is_err());
    assert!(validate(Field::Title, "a b").is_ok());
}

#[test]
fn prompts_take_defaults() {
    assert_eq!(prompt_text("Project title", ""), "Project title: ");
    assert_eq!(prompt_text("Project slug", "x"), "Project slug [x]: ");
    assert_eq!(prompt_with_default(Field::Slug, "\n", "x").unwrap(), "x");
    assert_eq!(prompt_with_default(Field::Slug, " y \n", "x").unwrap(), "y");
    assert!(prompt_with_default(Field::Slug, "\n", "").is_err());
    assert_eq!(prompt_required(Field::Title, " T \n").unwrap(), "T");
    assert_eq!(prompt_required(Field::Title, "\n").unwrap_err(), "title cannot be empty");
}

#[test]
fn requests_are_checked_name_first() {
    let ask = |name: Option<&str>, title: Option<&str>| {
        request(name.map(str::to_string), title.map(str::to_string))
    };
    let r = ask(Some("."), Some(" T ")).unwrap();
    assert!(r.in_place && r.named_slug.is_none());
    assert_eq!(r.title.as_deref(), Some("T"));
    let r = ask(Some("game"), None).unwrap();
    assert!(!r.in_place && r.title.is_none());
    assert_eq!(r.named_slug.as_deref(), Some("game"));
    assert_eq!(
        ask(Some("-"), Some("")).unwrap_err(),
        "invalid name: slug must start and end with [a-z0-9]"
    );
    assert_eq!(ask(Some("a"), Some(" ")).unwrap_err(), "invalid title: title cannot be empty");
}

#[test]
fn what_is_missing_is_asked_for_where_somebody_is_there() {
    let ask = |name: Option<&str>, title: Option<&str>| {
        request(name.map(str::to_string), title.map(str::to_string)).unwrap()
    };
    let text = |s: &str| Some(s.to_string());
    match run(&ask(Some("my-game"), None), true, &None, &None, &None) {
        Dialog::AskTitle { default } => assert_eq!(default, "My Game"),
        other => panic!("{other:?}"),
    }
    match run(&ask(Some("my-game"), None), true, &text("T"), &None, &None) {
        Dialog::Scaffold { slug, title, target } => {
            assert_eq!((slug.as_str(), title.as_deref(), target.as_str()), ("my-game", Some("T"), "my-game"));
        }
        other => panic!("{other:?}"),
    }
    match run(&ask(Some("my-game"), None), false, &None, &None, &text("/t")) {
        Dialog::Scaffold { slug, title, target } => {
            assert_eq!((slug.as_str(), title.as_deref(), target.as_str()), ("my-game", None, "/t"));
        }
        other => panic!("{other:?}"),
    }
    match run(&ask(Some("."), None), true, &None, &None, &None) {
        Dialog::AskTitle { default } => assert_eq!(default, ""),
        other => panic!("{other:?}"),
    }
    match run(&ask(None, Some("My Game")), true, &None, &None, &None) {
        Dialog::AskSlug { default } => assert_eq!(default, "my-game"),
        other => panic!("{other:?}"),
    }
    match run(&ask(Some("."), None), true, &text("T"), &text("s"), &None) {
        Dialog::Scaffold { slug, title, target } => {
            assert_eq!((slug.as_str(), title.as_deref(), target.as_str()), ("s", Some("T"), "."));
        }
        other => panic!("{other:?}"),
    }
    match run(&ask(None, Some("T")), false, &None, &None, &None) {
        Dialog::Refuse(m) => assert_eq!(
            m,
            "a project name is required when not running interactively: `gbandit scaffold <name>`"
        ),
        other => panic!("{other:?}"),
    }
    assert_eq!(target_path(Some("/t".to_string()), true, "s"), "/t");
    assert_eq!(target_path(None, true, "s"), ".");
    assert_eq!(target_path(None, false, "s"), "s");
}

#[test]
fn names_that_others_have_are_refused() {
    assert_eq!(
        check_named_slug("s", Ok(SlugAvailability::Free)).unwrap(),
        "'s' is available — the first deploy claims it."
    );
    assert_eq!(
        check_named_slug("s", Ok(SlugAvailability::TakenByYou)).unwrap(),
        "You already own project 's' — deploys will target the existing project."
    );
    assert_eq!(
        check_named_slug("s", Ok(SlugAvailability::TakenByOther)).unwrap_err(),
        "project name 's' is already taken by another user — pick another name"
    );
    assert_eq!(
        check_named_slug("s", Ok(SlugAvailability::Deleting)).unwrap_err(),
        "project 's' is being deleted — try again in a moment or pick another name"
    );
    assert_eq!(
        check_named_slug("s", Err("offline".to_string())).unwrap(),
        "Skipping project-name availability check (offline). The first `gbandit deploy` claims the name."
    );
    assert_eq!(
        not_logged_in(),
        "Skipping project-name availability check (not logged in). The first `gbandit deploy` claims the name."
    );
    assert!(matches!(prompt_available_slug("s", None), SlugChoice::Take(None)));
    assert!(matches!(
        prompt_available_slug("s", Some(Ok(SlugAvailability::Free))),
        SlugChoice::Take(None)
    ));
    assert!(matches!(
        prompt_available_slug("s", Some(Ok(SlugAvailability::TakenByYou))),
        SlugChoice::Take(Some(_))
    ));
    match prompt_available_slug("s", Some(Ok(SlugAvailability::TakenByOther))) {
        SlugChoice::AskAgain(m) => {
            assert_eq!(m, "  's' is already taken by another user — pick another name")
        }
        other => panic!("{other:?}"),
    }
    match prompt_available_slug("s", Some(Ok(SlugAvailability::Deleting))) {
        SlugChoice::AskAgain(m) => assert_eq!(
            m,
            "  's' is being deleted — try again in a moment or pick another name"
        ),
        other => panic!("{other:?}"),
    }
    match prompt_available_slug("s", Some(Err("x".to_string()))) {
        SlugChoice::Take(Some(m)) => assert!(m.starts_with("Skipping project-name")),
        other => panic!("{other:?}"),
    }
}

#[test]
fn placeholders_are_filled_in() {
    let fill = |text: &[u8]| substitute_placeholders(text, "my-game", "my_game");
    assert_eq!(
        fill(b"x replace-with-project replace_with_project replace-with-project").as_deref(),
        Some("x my-game my_game my-game")
    );
    assert_eq!(fill(b"nothing"), None);
    assert_eq!(fill(b"replace-with-project\0"), None);
    assert_eq!(fill(b"replace-with-project \xff"), None);
    let mut late = vec![b'x'; 8192];
    late.push(0);
    assert!(looks_like_text(&late));
    late[8191] = 0;
    assert!(!looks_like_text(&late));
    assert!(looks_like_text(&[]));
    assert_eq!(underscored_slug("a-b-c"), "a_b_c");
}

#[test]
fn every_file_outside_git_is_looked_at() {
    let dir = |name: &str, entries: Vec<Node>| Node::Dir { name: name.to_string(), entries };
    let tree = vec![
        Node::File(1),
        dir(".git", vec![Node::File(2)]),
        dir("src", vec![Node::File(3), Node::Other, dir(".git", vec![Node::File(4)]), dir("a", vec![Node::File(5)])]),
        Node::File(6),
    ];
    assert_eq!(collect_text_files(&tree), vec![1, 3, 5, 6]);
    assert!(!is_walked(".git"));
    assert!(is_walked(".github"));
}

#[test]
fn a_fresh_configuration_can_be_read() {
    let bare = write_gbandit_json("my-game", None);
    assert_eq!(
        bare,
        "{\n  \"database\": \"none\",\n  \"local_dev\": {\n    \"auto_commit\": true\n  },\n  \"project\": \"my-game\"\n}\n"
    );
    let odd = "T \"x\" \\ \n é";
    let titled = write_gbandit_json("my-game", Some(odd));
    let value: serde_json::Value = serde_json::from_str(&titled).unwrap();
    assert_eq!(format!("{}\n", serde_json::to_string_pretty(&value).unwrap()), titled);
    let config = parse_config(&titled, "").unwrap();
    assert_eq!(config.project, "my-game");
    assert_eq!(config.title.as_deref(), Some(odd));
    assert!(config.local_dev.auto_commit);
    assert_eq!(fresh_config_name(), "gbandit.json");
}

#[test]
fn scaffolding_is_done_in_order() {
    let steps = scaffold_project("my-game", None, None, true).unwrap();
    let names: Vec<String> = steps
        .iter()
        .map(|s| match s {
            ScaffoldStep::CreateTarget => "create".to_string(),
            ScaffoldStep::RequireEmpty => "empty".to_string(),
            ScaffoldStep::Say(t) => format!("say {t}"),
            ScaffoldStep::Clone(u) => format!("clone {u}"),
            ScaffoldStep::DropHistory => "drop".to_string(),
            ScaffoldStep::CopyTemplate => "copy".to_string(),
            ScaffoldStep::Substitute { dashed, underscored } => format!("fill {dashed} {underscored}"),
            ScaffoldStep::WriteConfig(_) => "config".to_string(),
            ScaffoldStep::Git(args) => format!("git {}", args.join(" ")),
        })
        .collect();
    assert_eq!(
        names,
        vec![
            "create",
            "empty",
            "say Cloning template from https://github.com/HectorBjernersjo/gbandit-game...",
            "clone https://github.com/HectorBjernersjo/gbandit-game",
            "drop",
            "copy",
            "fill my-game my_game",
            "config",
            "say Initialising git repo with initial commit...",
            "git init -b main",
            "git add -A",
            "git commit -m Initial commit from gbandit-game template"
        ]
    );
    let other = scaffold_project("x", Some("http://t".to_string()), None, false).unwrap();
    assert_eq!(other.len(), 8);
    assert!(matches!(&other[3], ScaffoldStep::Clone(u) if u == "http://t"));
    assert_eq!(
        scaffold_project("X", None, None, true).unwrap_err(),
        "invalid slug 'X': must be 1–63 chars, start/end with [a-z0-9], contain only [a-z0-9-]"
    );
    assert_eq!(
        target_not_empty("t"),
        "target directory t is not empty — scaffold refuses to overwrite"
    );
    let args = clone_args("u", "d");
    assert_eq!(args, vec!["clone", "--depth=1", "u", "d"]);
    assert_eq!(git_not_started(&args), "failed to spawn `git clone --depth=1 u d`");
    assert_eq!(
        git_failed(&args, "exit status: 128"),
        "`git clone --depth=1 u d` failed with status exit status: 128"
    );
}

fn lines(list: Vec<Notice>) -> Vec<String> {
    list.into_iter()
        .map(|n| match n {
            Notice::Progress(text) => text,
            other => panic!("{other:?}"),
        })
        .collect()
}

#[test]
fn scaffolding_says_what_comes_next() {
    assert_eq!(opening("s", "d"), "Scaffolding 's' into d ...");
    assert_eq!(
        lines(closing(true, "."))[0],
        "Done. Run `gbandit deploy` to ship — the first deploy creates the project on the platform."
    );
    let said = lines(closing(false, "d"));
    assert_eq!(
        said[0],
        "Done. cd d && gbandit deploy — the first deploy creates the project on the platform."
    );
    assert!(said[1].starts_with("Tip: to also build this project with the Pi Agent"));
}

#[test]
fn new_projects_take_their_slug_from_the_name() {
    match slug_source(Some("game".to_string()), "T").unwrap() {
        SlugSource::Named(slug) => assert_eq!(slug, "game"),
        other => panic!("{other:?}"),
    }
    match slug_source(Some(".".to_string()), "My Game").unwrap() {
        SlugSource::Ask { label, default } => {
            assert_eq!(label, "Project slug (your game will be at your-slug.gbandit.com)");
            assert_eq!(default, "my-game");
        }
        other => panic!("{other:?}"),
    }
    match slug_source(None, "My Game").unwrap() {
        SlugSource::Ask { label, default } => {
            assert_eq!((label.as_str(), default.as_str()), ("Project slug", "my-game"));
        }
        other => panic!("{other:?}"),
    }
    assert_eq!(
        slug_source(Some("dev-x".to_string()), "T").unwrap_err(),
        "invalid name: slug may not start with reserved prefix 'dev-'"
    );
    assert!(is_in_place(&Some(".".to_string())) && !is_in_place(&None));
    assert_eq!(creating("s", "T"), "Creating project 's' (title: \"T\") on the platform...");
    assert_eq!(scaffolding("d"), "Project created. Scaffolding into d ...");
    assert_eq!(closing_new(true, "."), "Done. Run `gbandit deploy` to ship.");
    assert_eq!(closing_new(false, "d"), "Done. cd d && gbandit deploy");
}
