use gbandit::auth_session::{
    after_poll, anonymous_url, before_poll, cli_access_token, credentials_file,
    credentials_identity, env_credentials, first_deploy_handoff_link, guest_created, guest_token, handoff_shown, handoff_url,
    has_credentials, identity_of_host, load_auth, load_credentials, login, login_guest,
    login_opening, login_poll_url, login_start_url, login_waiting, logout, logout_url, new_login, poll_at,
    session_cookie_value, session_rejected_at, session_rejected_message, session_tried, token_url,
    unreachable_text, upgrade_token, wants_handoff, whoami, CliAuth, CredentialsFile, LogoutNext,
    OpenedSession, PollNext, Revoked, StoredCredentials,
};
use gbandit::bodies::{
    create_body, env_body, handoff_body, login_poll_body, login_start_body, logout_body,
    migration_body, query_body, title_body, token_body,
};
use gbandit::env_vars::parse_pairs;
use gbandit::outside::Instant;
use gbandit::printer::Notice;

fn shown(list: &[Notice]) -> Vec<String> {
    list.iter()
        .map(|n| match n {
            Notice::Progress(text) => text.clone(),
            other => panic!("{other:?}"),
        })
        .collect()
}

fn credentials(user_id: &str, email: Option<&str>, name: Option<&str>) -> StoredCredentials {
    StoredCredentials {
        auth_origin: "http://a".to_string(),
        platform_api_origin: "http://p/api".to_string(),
        session_token: "s".to_string(),
        session_expires_at: "2030-01-01T00:00:00Z".to_string(),
        user_id: user_id.to_string(),
        email: email.map(str::to_string),
        name: name.map(str::to_string),
        browser_handoff_shown: false,
    }
}

#[test]
fn logins_are_kept_by_deployment() {
    assert_eq!(identity_of_host("auth.gbandit.com"), "gbandit.com");
    assert_eq!(identity_of_host("platform.gbandit.com"), "gbandit.com");
    assert_eq!(identity_of_host("auth.wt1.gbandit"), "wt1.gbandit");
    assert_eq!(identity_of_host("auth.main.gbandit"), "main.gbandit");
    assert_eq!(identity_of_host("gbandit"), "gbandit");
    assert_eq!(identity_of_host("10.0.0.1"), "0.1");
    assert_eq!(credentials_identity("https://auth.gbandit.com"), "gbandit.com");
    assert_eq!(credentials_identity("https://AUTH.Gbandit.com:8443/x"), "gbandit.com");
    assert_eq!(credentials_identity("not a url"), "not a url");
    assert_eq!(credentials_file("https://auth.gbandit.com"), "credentials-gbandit.com.json");
}

#[test]
fn logins_on_this_machine_are_kept_apart() {
    assert_eq!(credentials_file("http://auth.gbandit.localhost"), "credentials-dev.json");
    assert_eq!(credentials_file("http://localhost:3000"), "credentials-dev.json");
    assert_eq!(credentials_file("http://127.0.0.1"), "credentials-dev.json");
    assert_eq!(identity_of_host("mylocalhost"), "mylocalhost");
    assert_eq!(identity_of_host("a.localhost.com"), "localhost.com");
}

#[test]
fn a_set_token_is_used_as_it_is() {
    assert!(has_credentials(&Some("t".to_string()), false));
    assert!(!has_credentials(&Some(" \n".to_string()), false));
    assert!(has_credentials(&Some(String::new()), true));
    assert!(!has_credentials(&None, false));
    assert!(matches!(load_auth(Some(" t ".to_string())), CliAuth::Token(t) if t == " t "));
    assert!(matches!(load_auth(Some("  ".to_string())), CliAuth::Stored));
    assert!(matches!(load_auth(None), CliAuth::Stored));
}

#[test]
fn a_login_may_come_from_the_environment() {
    let c = env_credentials(
        Some("s".to_string()),
        Some("u".to_string()),
        "http://a".to_string(),
        "http://p".to_string(),
    )
    .unwrap();
    assert_eq!(c.session_token, "s");
    assert_eq!(c.user_id, "u");
    assert_eq!(c.session_expires_at, "2099-01-01T00:00:00Z");
    assert!(c.browser_handoff_shown && c.email.is_none() && c.name.is_none());
    assert_eq!((c.auth_origin.as_str(), c.platform_api_origin.as_str()), ("http://a", "http://p"));
    let half = env_credentials(Some("s".to_string()), None, String::new(), String::new());
    assert!(half.is_none());
    assert!(env_credentials(None, Some("u".to_string()), String::new(), String::new()).is_none());
}

#[test]
fn a_login_that_cannot_be_loaded_says_why() {
    let missing = load_credentials(CredentialsFile::Missing, "/c").unwrap_err();
    assert_eq!(
        missing.message,
        "You are not logged in. Run `gbandit login` to get started."
    );
    let locked = load_credentials(CredentialsFile::Unreadable("denied".to_string()), "/c").unwrap_err();
    assert_eq!(locked.message, "failed to read credentials file /c");
    assert_eq!(locked.cause.as_deref(), Some("denied"));
    let corrupt = load_credentials(CredentialsFile::Corrupt("eof".to_string()), "/c").unwrap_err();
    assert_eq!(
        corrupt.message,
        "credentials file /c is unreadable — run `gbandit login` to re-authenticate"
    );
    let found = load_credentials(CredentialsFile::Found(credentials("u", None, None)), "/c").unwrap();
    assert_eq!(found.user_id, "u");
}

#[test]
fn logins_are_polled_until_they_expire() {
    let at = |seconds: i64, nanos: u32| Instant { seconds, nanos };
    let text = "2024-05-06T07:08:09.5Z";
    let second = 1_714_979_289;
    assert!(poll_at(text, at(second, 499_999_999)).is_ok());
    assert_eq!(
        poll_at(text, at(second, 500_000_000)).unwrap_err(),
        "login request expired before it was approved in the browser — run `gbandit login` to start over"
    );
    assert!(poll_at(text, at(second + 1, 0)).is_err());
    assert!(poll_at("2024-05-06T09:08:09.5+02:00", at(second, 0)).is_ok());
    assert!(poll_at("2024-05-06T09:08:09.5+02:00", at(second, 500_000_000)).is_err());
    assert!(poll_at("soon", at(second, 0)).is_ok());
    assert!(before_poll("2001-01-01T00:00:00Z").is_err());
    assert!(before_poll("9999-01-01T00:00:00Z").is_ok());
    assert_eq!(after_poll(202, 5), PollNext::Wait(5));
    assert_eq!(after_poll(200, 5), PollNext::Read);
    assert_eq!(after_poll(410, 5), PollNext::Read);
}

#[test]
fn a_login_tells_whom_it_replaces() {
    let opened = OpenedSession {
        session_token: "n".to_string(),
        session_expires_at: "later".to_string(),
        user_id: "new".to_string(),
        email: Some("n@x".to_string()),
        name: Some("N".to_string()),
    };
    let c = new_login("http://a".to_string(), "http://p".to_string(), opened);
    assert!(!c.browser_handoff_shown);
    assert_eq!(c.session_token, "n");
    assert_eq!(
        shown(&login(&c, &None)),
        vec!["Logged in as n@x", "Session expires at later"]
    );
    assert_eq!(
        shown(&login(&c, &Some(credentials("old", None, Some("Guest"))))),
        vec![
            "Logged in as n@x",
            "This replaces the previous login (Guest).",
            "Session expires at later"
        ]
    );
    assert_eq!(
        shown(&login(&c, &Some(credentials("new", None, None)))),
        vec!["Logged in as n@x", "Session expires at later"]
    );
    assert_eq!(upgrade_token(&Some(c)).as_deref(), Some("n"));
    assert!(upgrade_token(&None).is_none());
    assert_eq!(
        shown(&login_opening("http://u")),
        vec!["Open this URL to complete login:", "http://u"]
    );
    assert_eq!(
        shown(&login_waiting(true)),
        vec!["Opened browser window.", "Waiting for login approval..."]
    );
    assert_eq!(shown(&login_waiting(false)), vec!["Waiting for login approval..."]);
}

#[test]
fn users_are_called_by_what_is_known_of_them() {
    assert_eq!(credentials("u", Some("e"), Some("n")).display_name(), "e");
    assert_eq!(credentials("u", None, Some("n")).display_name(), "n");
    assert_eq!(credentials("u", None, None).display_name(), "u");
}

#[test]
fn a_guest_is_not_created_over_a_login() {
    assert!(login_guest(&None).is_ok());
    assert_eq!(
        login_guest(&Some(credentials("u", Some("e"), None))).unwrap_err(),
        "Already logged in as e. Run `gbandit logout` first if you really want a fresh guest account."
    );
    assert_eq!(
        shown(&guest_created(Some("ann")))[0],
        "Created guest account @ann."
    );
    assert_eq!(
        shown(&guest_created(None)),
        vec![
            "Created guest account.",
            "Upgrade to Google any time with `gbandit login` — your username and projects are kept."
        ]
    );
}

#[test]
fn the_session_is_in_a_cookie() {
    let cookies = |list: &[&str]| list.iter().map(|c| c.to_string()).collect::<Vec<String>>();
    assert_eq!(
        session_cookie_value(&cookies(&["a=1", "gbandit_session=tok; Path=/; HttpOnly"])),
        Some("tok".to_string())
    );
    assert_eq!(
        session_cookie_value(&cookies(&["gbandit_session=; Path=/", "gbandit_session=t2"])),
        Some("t2".to_string())
    );
    assert_eq!(
        session_cookie_value(&cookies(&["gbandit_session=a", "gbandit_session=b"])),
        Some("a".to_string())
    );
    assert_eq!(session_cookie_value(&cookies(&[" gbandit_session=a"])), None);
    assert_eq!(session_cookie_value(&vec![]), None);
    assert_eq!(guest_token(&cookies(&["gbandit_session=a"])).unwrap(), "a");
    assert_eq!(
        guest_token(&vec![]).unwrap_err(),
        "auth server response did not include a session cookie — is the server up to date?"
    );
}

#[test]
fn the_browser_link_is_offered_once() {
    let fresh = Some(credentials("u", None, None));
    assert!(wants_handoff(false, false, &fresh));
    assert!(!wants_handoff(true, false, &fresh));
    assert!(!wants_handoff(false, true, &fresh));
    assert!(!wants_handoff(false, false, &None));
    let url = || Some("http://l".to_string());
    assert_eq!(first_deploy_handoff_link(Some(200), url()), url());
    assert_eq!(first_deploy_handoff_link(Some(403), url()), None);
    assert_eq!(first_deploy_handoff_link(None, url()), None);
    assert_eq!(first_deploy_handoff_link(Some(200), None), None);
    let seen = Some(handoff_shown(credentials("u", Some("e"), None)));
    assert!(!wants_handoff(false, false, &seen));
    assert_eq!(seen.unwrap().email.as_deref(), Some("e"));
}

#[test]
fn who_is_logged_in_is_shown() {
    assert_eq!(
        shown(&whoami(&credentials("u", Some("e"), Some("n")))),
        vec![
            "Logged in as e",
            "  Name:    n",
            "  Email:   e",
            "  User ID: u",
            "  Session expires at 2030-01-01T00:00:00Z"
        ]
    );
    assert_eq!(
        shown(&whoami(&credentials("u", None, None))),
        vec!["Logged in as u", "  User ID: u", "  Session expires at 2030-01-01T00:00:00Z"]
    );
    assert_eq!(session_tried(true), "  Session is valid.");
    assert_eq!(
        session_tried(false),
        "  Session is expired or invalid. Run `gbandit login` to re-authenticate."
    );
}

#[test]
fn a_rejected_session_says_whether_it_expired() {
    let now = Instant { seconds: 1_714_979_289, nanos: 0 };
    assert_eq!(
        session_rejected_at("2024-05-06T07:08:09Z", now),
        "Session expired at 2024-05-06T07:08:09Z. Run `gbandit login` to re-authenticate."
    );
    assert_eq!(
        session_rejected_at("2024-05-06T07:08:10Z", now),
        "Session is no longer valid. Run `gbandit login` to re-authenticate."
    );
    assert_eq!(
        session_rejected_at("never", now),
        "Session is no longer valid. Run `gbandit login` to re-authenticate."
    );
    let mut c = credentials("u", None, None);
    c.session_expires_at = "9999-01-01T00:00:00Z".to_string();
    assert!(session_rejected_message(&c).starts_with("Session is no longer valid."));
    c.session_expires_at = "2001-01-01T00:00:00Z".to_string();
    assert!(session_rejected_message(&c).starts_with("Session expired at 2001"));
    assert!(cli_access_token(&c, 200).is_ok());
    assert!(cli_access_token(&c, 500).is_ok());
    assert!(cli_access_token(&c, 401).unwrap_err().starts_with("Session expired at 2001"));
}

#[test]
fn logging_out_always_clears_the_login() {
    assert!(matches!(logout(true, true, Revoked::NotTried), LogoutNext::Revoke));
    let finish = |next: LogoutNext| match next {
        LogoutNext::Finish { remove, say } => (remove, say),
        other => panic!("{other:?}"),
    };
    assert_eq!(finish(logout(true, true, Revoked::Done)), (true, "Logged out.".to_string()));
    assert_eq!(
        finish(logout(true, true, Revoked::Failed("offline".to_string()))),
        (
            true,
            "Logged out locally, but the session could not be revoked on the server: offline"
                .to_string()
        )
    );
    assert_eq!(finish(logout(true, false, Revoked::Done)), (false, "Logged out.".to_string()));
    assert_eq!(
        finish(logout(false, true, Revoked::NotTried)),
        (true, "Logged out.".to_string())
    );
    assert_eq!(
        finish(logout(false, false, Revoked::NotTried)),
        (false, "Already logged out.".to_string())
    );
}

#[test]
fn the_auth_server_has_these_addresses() {
    assert_eq!(login_start_url("http://a"), "http://a/api/cli/login/start");
    assert_eq!(login_poll_url("http://a"), "http://a/api/cli/login/poll");
    assert_eq!(anonymous_url("http://a"), "http://a/api/anonymous");
    assert_eq!(handoff_url("http://a"), "http://a/api/cli/handoff");
    assert_eq!(logout_url("http://a"), "http://a/api/cli/logout");
    assert_eq!(token_url("http://a"), "http://a/api/cli/token");
    assert_eq!(
        unreachable_text("http://a"),
        "could not reach the auth server at http://a — check your network connection"
    );
}

#[test]
fn bodies_are_what_serde_writes() {
    let odd = "q\"\\\n\u{1}é/";
    let quoted = serde_json::to_string(odd).unwrap();
    assert_eq!(query_body(odd), format!("{{\"query\":{quoted}}}"));
    assert_eq!(title_body("T"), "{\"title\":\"T\"}");
    assert_eq!(create_body("s", odd), format!("{{\"slug\":\"s\",\"title\":{quoted}}}"));
    assert_eq!(
        migration_body("id", -3, None),
        "{\"deploy_message\":null,\"submission_id\":\"id\",\"target_migration_version\":-3}"
    );
    assert_eq!(
        migration_body("id", 20, Some("m")),
        "{\"deploy_message\":\"m\",\"submission_id\":\"id\",\"target_migration_version\":20}"
    );
    assert_eq!(login_start_body(None), "{\"upgrade_session_token\":null}");
    assert_eq!(login_start_body(Some("s")), "{\"upgrade_session_token\":\"s\"}");
    assert_eq!(login_poll_body("i", "s"), "{\"login_id\":\"i\",\"login_secret\":\"s\"}");
    assert_eq!(handoff_body("s", "r"), "{\"redirect\":\"r\",\"session_token\":\"s\"}");
    assert_eq!(logout_body("s"), "{\"session_token\":\"s\"}");
    assert_eq!(token_body("s"), "{\"audience\":\"platform-api\",\"session_token\":\"s\"}");
    for text in [
        query_body(odd),
        create_body("s", odd),
        migration_body("id", 20, Some(odd)),
        login_poll_body("i", odd),
        handoff_body(odd, "r"),
        token_body(odd),
    ] {
        let value: serde_json::Value = serde_json::from_str(&text).unwrap();
        assert_eq!(value.to_string(), text);
    }
}

#[test]
fn variables_are_sent_in_order() {
    let pairs = |list: &[&str]| list.iter().map(|c| c.to_string()).collect::<Vec<String>>();
    let vars = parse_pairs(&pairs(&["B=2", "A=x=y", "é=1", "AB=", "B=3", "=v"])).unwrap();
    let listed: Vec<String> = (0..vars.len())
        .map(|i| {
            let (k, v) = vars.get(i);
            format!("{k}:{v}")
        })
        .collect();
    assert_eq!(listed, vec![":v", "A:x=y", "AB:", "B:3", "é:1"]);
    let body = env_body(&vars);
    assert_eq!(
        body,
        "{\"vars\":{\"\":\"v\",\"A\":\"x=y\",\"AB\":\"\",\"B\":\"3\",\"é\":\"1\"}}"
    );
    let value: serde_json::Value = serde_json::from_str(&body).unwrap();
    assert_eq!(value.to_string(), body);
    assert_eq!(env_body(&parse_pairs(&vec![]).unwrap()), "{\"vars\":{}}");
    assert_eq!(
        parse_pairs(&pairs(&["A=1", "B", "C"])).unwrap_err(),
        "invalid KEY=VALUE pair: B"
    );
}

#[test]
fn variables_are_ordered_as_std_orders_strings() {
    let mut names = vec!["b", "a", "ab", "", "é", "Z", "z", "\u{10000}", "\u{ffff}", "a\u{0}", "_"];
    let pairs: Vec<String> = names.iter().map(|n| format!("{n}=1")).collect();
    let vars = parse_pairs(&pairs).unwrap();
    names.sort();
    let listed: Vec<&str> = (0..vars.len()).map(|i| vars.get(i).0).collect();
    assert_eq!(listed, names);
}
