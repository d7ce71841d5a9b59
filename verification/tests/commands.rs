use gbandit::cli::LogTarget;
use gbandit::commands::{
    deletion_started, docs, docs_failed, docs_unreachable, docs_unread, docs_url, env_delete,
    env_list, env_set, line_of, logs, project_delete, url_path, DeleteStep,
};
use gbandit::env_vars::{parse_pairs, EnvVars};
use gbandit::platform_client::LogEntry;
use gbandit::printer::Notice;

fn shown(list: &[Notice]) -> Vec<String> {
    list.iter()
        .map(|n| match n {
            Notice::Progress(text) => format!("> {text}"),
            Notice::Plain(text) => text.clone(),
            other => panic!("{other:?}"),
        })
        .collect()
}

fn entry(timestamp: &str, message: &str) -> LogEntry {
    LogEntry {
        timestamp: timestamp.to_string(),
        level: None,
        message: message.to_string(),
        source_url: None,
        user_name: None,
        user_is_anon: None,
    }
}

#[test]
fn documentation_is_found_by_page() {
    let url = |page: Option<&str>, full: bool| {
        docs_url("http://d", &page.map(str::to_string), full)
    };
    assert_eq!(url(None, false), "http://d/llms.txt");
    assert_eq!(url(None, true), "http://d/llms-full.txt");
    assert_eq!(url(Some("deploy"), true), "http://d/llms-full.txt");
    assert_eq!(url(Some("deploy"), false), "http://d/deploy.md");
    assert_eq!(url(Some("//deploy.md.md"), false), "http://d/deploy.md");
    assert_eq!(url(Some("/deploy#gbandit-jsonc"), false), "http://d/deploy.md");
    assert_eq!(url(Some("a/b?x#y"), false), "http://d/a/b.md");
    assert_eq!(url(Some("a.md#b"), false), "http://d/a.md.md");
    assert_eq!(url(Some("#a"), false), "http://d/.md");
    assert_eq!(url(Some(""), false), "http://d/.md");
}

#[test]
fn documentation_that_is_not_there_is_told() {
    assert_eq!(
        docs("http://d/x.md", 404).unwrap_err(),
        "no docs page at http://d/x.md — run `gbandit docs` to list available pages"
    );
    assert!(docs("http://d/x.md", 200).is_ok());
    assert!(docs("http://d/x.md", 500).is_ok());
    assert_eq!(
        docs_unreachable("http://d/x.md", "http://d"),
        "failed to fetch http://d/x.md — check your network; the docs live at http://d"
    );
    assert_eq!(docs_failed("u"), "failed to fetch u");
    assert_eq!(docs_unread("u"), "failed to read response body from u");
}

#[test]
fn paths_are_what_follows_the_host() {
    assert_eq!(url_path("https://x.com/a/b?c"), "/a/b?c");
    assert_eq!(url_path("https://x.com"), "/");
    assert_eq!(url_path("x.com/a"), "/a");
    assert_eq!(url_path("/a"), "/a");
    assert_eq!(url_path(""), "/");
    assert_eq!(url_path("a/b://c/d"), "/d");
}

#[test]
fn logs_are_shown_oldest_first() {
    let list = vec![
        entry("2024-05-06T07:08:10Z", "second"),
        entry("2024-05-06T07:08:09.123Z", "first"),
    ];
    assert_eq!(
        shown(&logs(LogTarget::Backend, &list)),
        vec!["07:08:09 first", "07:08:10 second"]
    );
    assert_eq!(
        shown(&logs(LogTarget::Backend, &vec![])),
        vec!["> No backend logs recorded."]
    );
    assert_eq!(
        shown(&logs(LogTarget::Frontend, &vec![])),
        vec!["> No frontend logs recorded."]
    );
}

#[test]
fn browser_logs_say_who_and_where() {
    let mut e = entry("2024-05-06T07:08:09Z", "boom");
    e.level = Some("warn".to_string());
    e.user_name = Some("ann".to_string());
    e.source_url = Some("https://g.gbandit.com/play".to_string());
    assert_eq!(
        shown(&logs(LogTarget::Frontend, &vec![e])),
        vec!["07:08:09 WARN   [ann @ /play] boom"]
    );
    let mut e = entry("2024-05-06T07:08:09Z", "boom");
    e.level = Some("straße".to_string());
    e.user_is_anon = Some(true);
    assert_eq!(
        shown(&logs(LogTarget::Frontend, &vec![e])),
        vec!["07:08:09 STRASSE  [anon @ /] boom"]
    );
    let mut e = entry("2024-05-06T07:08:09Z", "boom");
    e.user_is_anon = Some(false);
    assert_eq!(line_of(LogTarget::Frontend, &e, ""), "07:08:09        [- @ /] boom");
}

#[test]
fn odd_timestamps_are_shown_whole() {
    for text in [
        "now",
        "",
        "2024-05-06T07:08:0",
        "2024-05-06T07:08:09",
        "éééééééééééé",
        "aéééééééééééé",
        "0123456789\u{10000}xyz0123",
        "01234567890\u{10000}\u{10000}z",
    ] {
        let std_time = text.get(11..19).unwrap_or(text);
        assert_eq!(
            line_of(LogTarget::Backend, &entry(text, "m"), ""),
            format!("{std_time} m"),
            "{text}"
        );
    }
}

#[test]
fn variables_are_listed_with_those_of_the_system() {
    let vars = |list: &[&str]| {
        parse_pairs(&list.iter().map(|c| c.to_string()).collect::<Vec<String>>()).unwrap()
    };
    assert_eq!(shown(&env_set(&vars(&["B=2", "A=1"]))), vec!["> A=1", "> B=2"]);
    assert_eq!(
        shown(&env_list(&vars(&["B=2"]), &vars(&["A=1"]))),
        vec!["> B=2", "> A=1 [system]"]
    );
    assert_eq!(
        shown(&env_list(&EnvVars::new(), &EnvVars::new())),
        vec!["> No environment variables set."]
    );
    assert_eq!(shown(&env_list(&EnvVars::new(), &vars(&["A=1"]))), vec!["> A=1 [system]"]);
    assert!(env_set(&EnvVars::new()).is_empty());
    assert_eq!(shown(&[env_delete("K")]), vec!["> Deleted K"]);
}

#[test]
fn projects_are_deleted_for_a_typed_slug_only() {
    assert!(matches!(project_delete("p", true, None), DeleteStep::Delete));
    assert!(matches!(project_delete("p", false, Some(" p\n")), DeleteStep::Delete));
    match project_delete("p", false, Some("y")) {
        DeleteStep::Refuse(m) => assert_eq!(m, "aborted: typed value did not match slug"),
        other => panic!("{other:?}"),
    }
    match project_delete("p", false, None) {
        DeleteStep::Ask { say, question } => {
            assert_eq!(
                shown(&say),
                vec![
                    "> About to permanently delete project 'p'. This destroys the dev",
                    "> and prod databases, all deploys, all uploaded assets, and",
                    "> the GitHub link. There is no undo and no Restore path."
                ]
            );
            assert_eq!(question, "Type the slug to confirm: ");
        }
        other => panic!("{other:?}"),
    }
    assert_eq!(
        shown(&[deletion_started("p")]),
        vec!["> Deletion started for project 'p'. The slug stays reserved until namespace, database, and PVCs are fully torn down."]
    );
}
