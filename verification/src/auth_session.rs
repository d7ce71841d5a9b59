//! Logging in and out: whose session it is, where it is kept, and what is said of it.

use vstd::prelude::*;
use vstd::string::*;

use crate::fault::{caused, plain, Fault, FaultView};
use crate::http::{is_success, success};
use crate::lines::{lemma_upto_char, split, split_at, upto};
use crate::outside::{
    host_of, not_after, parse_rfc3339, rfc3339_instant, url_host, utc_now, Instant,
};
use crate::printer::{notices, Notice, NoticeView};
use crate::text::{
    after_prefix, contains, ends, ends_with, law_texts_contain_their_parts,
    law_trimming_keeps_the_middle, opt_str, opt_text, same, starts_with, texts, trim, trimmed, white,
};

verus! {

/// A login that is kept on disk.
#[derive(Debug)]
pub struct StoredCredentials {
    pub auth_origin: String,
    pub platform_api_origin: String,
    pub session_token: String,
    pub session_expires_at: String,
    pub user_id: String,
    pub email: Option<String>,
    pub name: Option<String>,
    /// Whether the link that opens the project in a browser was shown; it is shown once.
    pub browser_handoff_shown: bool,
}

/// [`StoredCredentials`], as characters.
pub struct CredentialsView {
    pub auth_origin: Seq<char>,
    pub platform_api_origin: Seq<char>,
    pub session_token: Seq<char>,
    pub session_expires_at: Seq<char>,
    pub user_id: Seq<char>,
    pub email: Option<Seq<char>>,
    pub name: Option<Seq<char>>,
    pub browser_handoff_shown: bool,
}

impl View for StoredCredentials {
    type V = CredentialsView;

    open spec fn view(&self) -> CredentialsView {
        CredentialsView {
            auth_origin: self.auth_origin@,
            platform_api_origin: self.platform_api_origin@,
            session_token: self.session_token@,
            session_expires_at: self.session_expires_at@,
            user_id: self.user_id@,
            email: opt_text(self.email),
            name: opt_text(self.name),
            browser_handoff_shown: self.browser_handoff_shown,
        }
    }
}

/// How a user is called: by email, else by name, else by id.
pub open spec fn called(c: CredentialsView) -> Seq<char> {
    match (c.email, c.name) {
        (Some(email), _) => email,
        (None, Some(name)) => name,
        (None, None) => c.user_id,
    }
}

impl StoredCredentials {
    /// How the user is called.
    pub fn display_name(&self) -> (r: String)
        ensures
            r@ == called(self@),
    {
        match &self.email {
            Some(email) => email.clone(),
            None => match &self.name {
                Some(name) => name.clone(),
                None => self.user_id.clone(),
            },
        }
    }
}

/// Where a login is started.
pub fn login_start_url(auth_origin: &str) -> (r: String)
    ensures
        r@ == auth_origin@ + "/api/cli/login/start"@,
{
    auth_origin.to_string().concat("/api/cli/login/start")
}

/// Where it is asked whether a login was approved.
pub fn login_poll_url(auth_origin: &str) -> (r: String)
    ensures
        r@ == auth_origin@ + "/api/cli/login/poll"@,
{
    auth_origin.to_string().concat("/api/cli/login/poll")
}

/// Where a guest is created.
pub fn anonymous_url(auth_origin: &str) -> (r: String)
    ensures
        r@ == auth_origin@ + "/api/anonymous"@,
{
    auth_origin.to_string().concat("/api/anonymous")
}

/// Where the link that opens the project in a browser is asked for.
pub fn handoff_url(auth_origin: &str) -> (r: String)
    ensures
        r@ == auth_origin@ + "/api/cli/handoff"@,
{
    auth_origin.to_string().concat("/api/cli/handoff")
}

/// Where a session is revoked.
pub fn logout_url(auth_origin: &str) -> (r: String)
    ensures
        r@ == auth_origin@ + "/api/cli/logout"@,
{
    auth_origin.to_string().concat("/api/cli/logout")
}

/// Where a session is exchanged for an access token.
pub fn token_url(auth_origin: &str) -> (r: String)
    ensures
        r@ == auth_origin@ + "/api/cli/token"@,
{
    auth_origin.to_string().concat("/api/cli/token")
}

/// What is said when the auth server cannot be reached.
pub fn unreachable_text(auth_origin: &str) -> (r: String)
    ensures
        r@ == "could not reach the auth server at "@ + auth_origin@
            + " — check your network connection"@,
{
    "could not reach the auth server at ".to_string().concat(auth_origin).concat(
        " — check your network connection",
    )
}

// ---------------------------------------------------------------------------
// Where a login is kept
// ---------------------------------------------------------------------------

/// Whether a host is this machine.
pub open spec fn is_local(host: Seq<char>) -> bool {
    host == "localhost"@ || host == "127.0.0.1"@ || ends_with(host, ".localhost"@)
}

/// The deployment that a host belongs to: its last two labels, or `dev` on this machine.
pub open spec fn deployment(host: Seq<char>) -> Seq<char> {
    let labels = split(host, '.');
    if is_local(host) {
        "dev"@
    } else if labels.len() >= 2 {
        labels[labels.len() - 2] + "."@ + labels[labels.len() - 1]
    } else {
        host
    }
}

/// The host of an origin, or the origin itself where it has none.
pub open spec fn origin_host(origin: Seq<char>) -> Seq<char> {
    match host_of(origin) {
        Some(host) => host,
        None => origin,
    }
}

/// The deployment that a host belongs to.
pub fn identity_of_host(host: &str) -> (r: String)
    ensures
        r@ == deployment(host@),
{
    if same(host, "localhost") || same(host, "127.0.0.1") || ends(host, ".localhost") {
        return "dev".to_string();
    }
    let labels = split_at(host, '.');
    let n = labels.len();
    if n >= 2 {
        proof {
            assert(texts(labels@)[n - 2] == labels@[n - 2]@);
            assert(texts(labels@)[n - 1] == labels@[n - 1]@);
        }
        labels[n - 2].clone().concat(".").concat(labels[n - 1].as_str())
    } else {
        host.to_string()
    }
}

/// The deployment that a login belongs to, by the host of its auth server. All hosts of one
/// deployment share a login, and different deployments do not overwrite each other's.
pub fn credentials_identity(auth_origin: &str) -> (r: String)
    ensures
        r@ == deployment(origin_host(auth_origin@)),
{
    let host = match url_host(auth_origin) {
        Some(host) => host,
        None => auth_origin.to_string(),
    };
    identity_of_host(host.as_str())
}

/// The name of the file that a login is kept in.
pub fn credentials_file(auth_origin: &str) -> (r: String)
    ensures
        r@ == "credentials-"@ + deployment(origin_host(auth_origin@)) + ".json"@,
{
    "credentials-".to_string().concat(credentials_identity(auth_origin).as_str()).concat(".json")
}

proof fn lemma_split_parts(s: Seq<char>, c: char)
    ensures
        split(s, c).len() >= 1,
        forall|i: int, j: int|
            0 <= i < split(s, c).len() && 0 <= j < split(s, c)[i].len() ==> #[trigger] split(s, c)[i][j]
                != c,
    decreases s.len(),
{
    let k = upto(s, c);
    lemma_upto_char(s, c);
    if 0 <= k < s.len() {
        lemma_split_parts(s.skip(k + 1), c);
        let rest = split(s.skip(k + 1), c);
        assert forall|i: int, j: int|
            0 <= i < split(s, c).len() && 0 <= j < split(s, c)[i].len() implies #[trigger] split(
            s,
            c,
        )[i][j] != c by {
            if i == 0 {
                assert(split(s, c)[0] == s.take(k));
            } else {
                assert(split(s, c)[i] == rest[i - 1]);
                assert(rest[i - 1][j] != c);
            }
        }
    }
}

proof fn lemma_upto_prefix(p: Seq<char>, h: Seq<char>, c: char)
    ensures
        upto(p + seq![c] + h, c) == upto(p, c),
    decreases p.len(),
{
    let s = p + seq![c] + h;
    if p.len() == 0 {
        assert(s[0] == c);
    } else if p[0] != c {
        lemma_upto_prefix(p.skip(1), h, c);
        assert(s.skip(1) =~= p.skip(1) + seq![c] + h);
    }
}

/// The labels of a name in front of a host are those of the name and those of the host.
proof fn lemma_split_concat(p: Seq<char>, h: Seq<char>, c: char)
    ensures
        split(p + seq![c] + h, c) == split(p, c) + split(h, c),
    decreases p.len(),
{
    let s = p + seq![c] + h;
    let k = upto(p, c);
    lemma_upto_prefix(p, h, c);
    lemma_upto_char(p, c);
    if k == p.len() {
        assert(s.take(k) =~= p);
        assert(s.skip(k + 1) =~= h);
    } else {
        assert(s.take(k) =~= p.take(k));
        assert(s.skip(k + 1) =~= p.skip(k + 1) + seq![c] + h);
        lemma_split_concat(p.skip(k + 1), h, c);
        assert(seq![p.take(k)] + (split(p.skip(k + 1), c) + split(h, c)) =~= split(p, c) + split(
            h,
            c,
        ));
    }
}

/// All hosts of a deployment share its login: what stands in front of a host makes no
/// difference, where the host has two labels or more or is this machine, and a host of the
/// network does not become the address of this machine or stop being it.
pub proof fn law_subdomains_share_a_login(name: Seq<char>, host: Seq<char>)
    requires
        split(host, '.').len() >= 2 || is_local(host),
        is_local(host) == is_local(name + seq!['.'] + host),
    ensures
        deployment(name + seq!['.'] + host) == deployment(host),
{
    lemma_split_concat(name, host, '.');
    lemma_split_parts(name, '.');
    let all = split(name + seq!['.'] + host, '.');
    let own = split(host, '.');
    if own.len() >= 2 {
        assert(all[all.len() - 1] == own[own.len() - 1]);
        assert(all[all.len() - 2] == own[own.len() - 2]);
    }
}

proof fn lemma_dotted(a: Seq<char>, b: Seq<char>, c: Seq<char>, d: Seq<char>)
    requires
        a + seq!['.'] + b == c + seq!['.'] + d,
        forall|j: int| 0 <= j < a.len() ==> a[j] != '.',
        forall|j: int| 0 <= j < c.len() ==> c[j] != '.',
    ensures
        a == c,
        b == d,
{
    let s = a + seq!['.'] + b;
    let t = c + seq!['.'] + d;
    assert(s[a.len() as int] == '.');
    assert(t[c.len() as int] == '.');
    if a.len() < c.len() {
        assert(t[a.len() as int] == c[a.len() as int]);
    }
    if c.len() < a.len() {
        assert(s[c.len() as int] == a[c.len() as int]);
    }
    assert(a =~= c) by {
        assert forall|j: int| 0 <= j < a.len() implies a[j] == c[j] by {
            assert(s[j] == a[j]);
            assert(t[j] == c[j]);
        }
    }
    assert(b =~= d) by {
        assert(s.len() == t.len());
        assert(b.len() == d.len());
        assert forall|j: int| 0 <= j < b.len() implies b[j] == d[j] by {
            assert(s[a.len() + 1 + j] == b[j]);
            assert(t[a.len() + 1 + j] == d[j]);
        }
    }
}

/// The last two labels of a host, or the one that it has.
pub open spec fn last_labels(host: Seq<char>) -> Seq<Seq<char>> {
    let labels = split(host, '.');
    if labels.len() >= 2 {
        seq![labels[labels.len() - 2], labels[labels.len() - 1]]
    } else {
        labels
    }
}

/// A host of one label is that label, and has no dot.
proof fn lemma_one_label(host: Seq<char>)
    requires
        split(host, '.').len() < 2,
    ensures
        split(host, '.') == seq![host],
        forall|j: int| 0 <= j < host.len() ==> host[j] != '.',
{
    lemma_upto_char(host, '.');
    let k = upto(host, '.');
    if k < host.len() {
        lemma_split_parts(host.skip(k + 1), '.');
    }
}

/// The deployment of a host of two labels has a dot.
proof fn lemma_deployment_has_dot(host: Seq<char>)
    requires
        !is_local(host),
        split(host, '.').len() >= 2,
    ensures
        exists|j: int| 0 <= j < deployment(host).len() && #[trigger] deployment(host)[j] == '.',
{
    reveal_strlit(".");
    let labels = split(host, '.');
    let front = labels[labels.len() - 2];
    assert(deployment(host)[front.len() as int] == '.');
}

/// Different deployments keep their logins apart: two hosts of the network share a file only
/// where their last labels are the same.
pub proof fn law_deployments_are_kept_apart(a: Seq<char>, b: Seq<char>)
    requires
        !is_local(a),
        !is_local(b),
        deployment(a) == deployment(b),
    ensures
        last_labels(a) == last_labels(b),
{
    let x = split(a, '.');
    let y = split(b, '.');
    if x.len() >= 2 && y.len() >= 2 {
        lemma_split_parts(a, '.');
        lemma_split_parts(b, '.');
        reveal_strlit(".");
        assert("."@ =~= seq!['.']);
        lemma_dotted(x[x.len() - 2], x[x.len() - 1], y[y.len() - 2], y[y.len() - 1]);
    } else if x.len() >= 2 {
        lemma_deployment_has_dot(a);
        lemma_one_label(b);
    } else if y.len() >= 2 {
        lemma_deployment_has_dot(b);
        lemma_one_label(a);
    } else {
        lemma_one_label(a);
        lemma_one_label(b);
    }
}

/// A login on this machine is kept apart from that of any host of the network, but for a
/// host that is called `dev`.
pub proof fn law_local_logins_are_kept_apart(local: Seq<char>, host: Seq<char>)
    requires
        is_local(local),
        !is_local(host),
        host != "dev"@,
    ensures
        deployment(local) != deployment(host),
{
    if split(host, '.').len() >= 2 {
        reveal_strlit("dev");
        lemma_deployment_has_dot(host);
        assert("dev"@ =~= seq!['d', 'e', 'v']);
    }
}

// ---------------------------------------------------------------------------
// Which login is used
// ---------------------------------------------------------------------------

/// Whether a token that was set is one.
pub open spec fn usable(token: Option<Seq<char>>) -> bool {
    match token {
        Some(token) => trim(token).len() > 0,
        None => false,
    }
}

fn is_usable(token: &Option<String>) -> (r: bool)
    ensures
        r == usable(opt_text(*token)),
{
    match token {
        Some(token) => !trimmed(token.as_str()).as_str().is_empty(),
        None => false,
    }
}

/// Whether there is anything to authenticate with: a token that was set, or a login.
pub open spec fn authenticated(access_token: Option<Seq<char>>, stored: bool) -> bool {
    usable(access_token) || stored
}

/// Whether a deploy can authenticate without creating anything. `access_token` is what
/// `GBANDIT_ACCESS_TOKEN` is set to; `stored` says whether a login could be loaded.
pub fn has_credentials(access_token: &Option<String>, stored: bool) -> (r: bool)
    ensures
        r == (usable(opt_text(*access_token)) || stored),
        r == authenticated(opt_text(*access_token), stored),
{
    is_usable(access_token) || stored
}

/// How requests are authenticated.
#[derive(Debug)]
pub enum CliAuth {
    /// With the token that was set, at the platform's origin.
    Token(String),
    /// With a token that the stored login is exchanged for, at the login's origin.
    Stored,
}

/// The token that requests are authenticated with, where one was set.
pub open spec fn set_token(access_token: Option<Seq<char>>) -> Option<Seq<char>> {
    if usable(access_token) {
        access_token
    } else {
        None
    }
}

/// How requests are authenticated. `access_token` is what `GBANDIT_ACCESS_TOKEN` is set to.
pub fn load_auth(access_token: Option<String>) -> (r: CliAuth)
    ensures
        if usable(opt_text(access_token)) {
            r matches CliAuth::Token(token) && Some(token@) == opt_text(access_token)
        } else {
            r is Stored
        },
        set_token(opt_text(access_token)) == match r {
            CliAuth::Token(token) => Some(token@),
            CliAuth::Stored => None,
        },
{
    let use_it = is_usable(&access_token);
    match access_token {
        Some(token) => if use_it {
            CliAuth::Token(token)
        } else {
            CliAuth::Stored
        },
        None => CliAuth::Stored,
    }
}

/// The login that a session and a user of the environment make.
pub open spec fn env_login(
    session: Option<Seq<char>>,
    user: Option<Seq<char>>,
    auth_origin: Seq<char>,
    platform_api_origin: Seq<char>,
) -> Option<CredentialsView> {
    match (session, user) {
        (Some(session_token), Some(user_id)) => Some(
            CredentialsView {
                auth_origin,
                platform_api_origin,
                session_token,
                session_expires_at: "2099-01-01T00:00:00Z"@,
                user_id,
                email: None,
                name: None,
                browser_handoff_shown: true,
            },
        ),
        _ => None,
    }
}

/// The login that the environment describes, where both the session and the user are set:
/// its expiry is left to the server, and nobody is there to be handed a browser link.
pub fn env_credentials(
    session_token: Option<String>,
    user_id: Option<String>,
    auth_origin: String,
    platform_api_origin: String,
) -> (r: Option<StoredCredentials>)
    ensures
        match (session_token, user_id) {
            (Some(session), Some(user)) => r matches Some(c) && c@ == (CredentialsView {
                auth_origin: auth_origin@,
                platform_api_origin: platform_api_origin@,
                session_token: session@,
                session_expires_at: "2099-01-01T00:00:00Z"@,
                user_id: user@,
                email: None,
                name: None,
                browser_handoff_shown: true,
            }),
            _ => r is None,
        },
        env_login(opt_text(session_token), opt_text(user_id), auth_origin@, platform_api_origin@)
            == match r {
            Some(c) => Some(c@),
            None => None,
        },
{
    match (session_token, user_id) {
        (Some(session_token), Some(user_id)) => Some(
            StoredCredentials {
                auth_origin,
                platform_api_origin,
                session_token,
                session_expires_at: "2099-01-01T00:00:00Z".to_string(),
                user_id,
                email: None,
                name: None,
                browser_handoff_shown: true,
            },
        ),
        _ => None,
    }
}

/// What was found where the login is kept.
#[derive(Debug)]
pub enum CredentialsFile {
    Missing,
    /// A file that could not be read; the text says why.
    Unreadable(String),
    /// A file that does not hold a login; the text says why.
    Corrupt(String),
    Found(StoredCredentials),
}

/// What comes of the file at `path`.
pub open spec fn file_fault(file: CredentialsFile, path: Seq<char>) -> Option<FaultView> {
    match file {
        CredentialsFile::Missing => Some(
            plain("You are not logged in. Run `gbandit login` to get started."@),
        ),
        CredentialsFile::Unreadable(why) => Some(
            caused("failed to read credentials file "@ + path, why@),
        ),
        CredentialsFile::Corrupt(why) => Some(
            caused(
                "credentials file "@ + path
                    + " is unreadable — run `gbandit login` to re-authenticate"@,
                why@,
            ),
        ),
        CredentialsFile::Found(_) => None,
    }
}

/// The login that is kept at `path`.
pub fn load_credentials(file: CredentialsFile, path: &str) -> (r: Result<StoredCredentials, Fault>)
    ensures
        match r {
            Ok(c) => file matches CredentialsFile::Found(found) && c == found,
            Err(f) => file_fault(file, path@) == Some(f@),
        },
{
    match file {
        CredentialsFile::Missing => Err(
            Fault::plain("You are not logged in. Run `gbandit login` to get started.".to_string()),
        ),
        CredentialsFile::Unreadable(why) => Err(
            Fault::caused(
                "failed to read credentials file ".to_string().concat(path).as_str(),
                why.as_str(),
            ),
        ),
        CredentialsFile::Corrupt(why) => Err(
            Fault::caused(
                "credentials file ".to_string().concat(path).concat(
                    " is unreadable — run `gbandit login` to re-authenticate",
                ).as_str(),
                why.as_str(),
            ),
        ),
        CredentialsFile::Found(credentials) => Ok(credentials),
    }
}

// ---------------------------------------------------------------------------
// Logging in with a browser
// ---------------------------------------------------------------------------

/// What is said before the browser is opened.
pub fn login_opening(authorize_url: &str) -> (r: Vec<Notice>)
    ensures
        notices(r@) == seq![
            NoticeView::Progress("Open this URL to complete login:"@),
            NoticeView::Progress(authorize_url@),
        ],
{
    let mut r: Vec<Notice> = Vec::new();
    r.push(Notice::Progress("Open this URL to complete login:".to_string()));
    r.push(Notice::Progress(authorize_url.to_string()));
    proof {
        assert(notices(r@) =~= seq![r@[0]@, r@[1]@]);
    }
    r
}

/// What is said while the login is waited for. `opened` says whether a browser was opened.
pub fn login_waiting(opened: bool) -> (r: Vec<Notice>)
    ensures
        notices(r@) == if opened {
            seq![
                NoticeView::Progress("Opened browser window."@),
                NoticeView::Progress("Waiting for login approval..."@),
            ]
        } else {
            seq![NoticeView::Progress("Waiting for login approval..."@)]
        },
{
    let mut r: Vec<Notice> = Vec::new();
    if opened {
        r.push(Notice::Progress("Opened browser window.".to_string()));
    }
    r.push(Notice::Progress("Waiting for login approval...".to_string()));
    proof {
        if opened {
            assert(notices(r@) =~= seq![r@[0]@, r@[1]@]);
        } else {
            assert(notices(r@) =~= seq![r@[0]@]);
        }
    }
    r
}

/// What proves who owned the login of before.
pub open spec fn proof_of(previous: Option<CredentialsView>) -> Option<Seq<char>> {
    match previous {
        Some(c) => Some(c.session_token),
        None => None,
    }
}

/// What proves to the auth server that the user owns the login of before, so that a guest
/// is upgraded in place.
pub fn upgrade_token(previous: &Option<StoredCredentials>) -> (r: Option<String>)
    ensures
        opt_text(r) == match *previous {
            Some(c) => Some(c.session_token@),
            None => None,
        },
        opt_text(r) == proof_of(
            match *previous {
                Some(c) => Some(c@),
                None => None,
            },
        ),
{
    match previous {
        Some(c) => Some(c.session_token.clone()),
        None => None,
    }
}

/// Whether a login request that expires then has expired. One whose expiry cannot be read
/// does not.
pub open spec fn login_expired(expires_at: Seq<char>, now: Instant) -> bool {
    match rfc3339_instant(expires_at) {
        Some(expiry) => not_after(expiry, now),
        None => false,
    }
}

/// Whether the first time is at or before the second.
fn is_not_after(a: Instant, b: Instant) -> (r: bool)
    ensures
        r == not_after(a, b),
{
    a.seconds < b.seconds || (a.seconds == b.seconds && a.nanos <= b.nanos)
}

/// Decides, at time `now`, whether to poll a login request once more.
pub fn poll_at(expires_at: &str, now: Instant) -> (r: Result<(), String>)
    ensures
        match r {
            Ok(()) => !login_expired(expires_at@, now),
            Err(m) => login_expired(expires_at@, now) && m@
                == "login request expired before it was approved in the browser — run `gbandit login` to start over"@,
        },
{
    let expired = match parse_rfc3339(expires_at) {
        Some(expiry) => is_not_after(expiry, now),
        None => false,
    };
    if expired {
        return Err(
            "login request expired before it was approved in the browser — run `gbandit login` to start over".to_string(),
        );
    }
    Ok(())
}

/// Decides, by the clock, whether to poll a login request once more.
pub fn before_poll(expires_at: &str) -> (r: Result<(), String>)
    ensures
        exists|now: Instant|
            #![trigger login_expired(expires_at@, now)]
            match r {
                Ok(()) => !login_expired(expires_at@, now),
                Err(m) => login_expired(expires_at@, now) && m@
                    == "login request expired before it was approved in the browser — run `gbandit login` to start over"@,
            },
{
    let now = utc_now();
    let r = poll_at(expires_at, now);
    proof {
        let _ = login_expired(expires_at@, now);
    }
    r
}

/// What to do after a poll.
#[derive(Clone, Copy, Debug, PartialEq, Eq, Structural)]
pub enum PollNext {
    /// Not approved yet: poll again after so many seconds.
    Wait(u64),
    /// The reply describes the session, or an error.
    Read,
}

/// What a status says of a login that was polled.
pub open spec fn polled(status: u16, interval: u64) -> PollNext {
    if status == 202 {
        PollNext::Wait(interval)
    } else {
        PollNext::Read
    }
}

/// What to do after a poll that was answered with `status`.
pub fn after_poll(status: u16, poll_interval_seconds: u64) -> (r: PollNext)
    ensures
        r == if status == 202 {
            PollNext::Wait(poll_interval_seconds)
        } else {
            PollNext::Read
        },
        r == polled(status, poll_interval_seconds),
{
    if status == 202 {
        PollNext::Wait(poll_interval_seconds)
    } else {
        PollNext::Read
    }
}

/// A session that the auth server opened.
#[derive(Debug)]
pub struct OpenedSession {
    pub session_token: String,
    pub session_expires_at: String,
    pub user_id: String,
    pub email: Option<String>,
    pub name: Option<String>,
}

/// The login of an opened session.
pub open spec fn login_of(
    auth_origin: Seq<char>,
    platform_api_origin: Seq<char>,
    opened: OpenedSession,
) -> CredentialsView {
    CredentialsView {
        auth_origin,
        platform_api_origin,
        session_token: opened.session_token@,
        session_expires_at: opened.session_expires_at@,
        user_id: opened.user_id@,
        email: opt_text(opened.email),
        name: opt_text(opened.name),
        browser_handoff_shown: false,
    }
}

/// The login of an opened session.
pub fn new_login(auth_origin: String, platform_api_origin: String, opened: OpenedSession) -> (r:
    StoredCredentials)
    ensures
        r@ == login_of(auth_origin@, platform_api_origin@, opened),
{
    StoredCredentials {
        auth_origin,
        platform_api_origin,
        session_token: opened.session_token,
        session_expires_at: opened.session_expires_at,
        user_id: opened.user_id,
        email: opened.email,
        name: opened.name,
        browser_handoff_shown: false,
    }
}

/// What is said of a login that took the place of another user's.
pub open spec fn replaced_shown(previous: Option<StoredCredentials>, user_id: Seq<char>) -> Seq<
    NoticeView,
> {
    match previous {
        Some(p) => if p.user_id@ != user_id {
            seq![
                NoticeView::Progress(
                    "This replaces the previous login ("@ + called(p@) + ")."@,
                ),
            ]
        } else {
            Seq::empty()
        },
        None => Seq::empty(),
    }
}

/// What is said of a login in place of one of before.
pub open spec fn login_shown(c: CredentialsView, previous: Option<StoredCredentials>) -> Seq<
    NoticeView,
> {
    seq![NoticeView::Progress("Logged in as "@ + called(c))] + replaced_shown(previous, c.user_id)
        + seq![NoticeView::Progress("Session expires at "@ + c.session_expires_at)]
}

/// What is said once the login is saved. The browser decides which account it completes as,
/// so that a change of user is told.
pub fn login(credentials: &StoredCredentials, previous: &Option<StoredCredentials>) -> (r: Vec<
    Notice,
>)
    ensures
        notices(r@) == seq![NoticeView::Progress("Logged in as "@ + called(credentials@))]
            + replaced_shown(*previous, credentials.user_id@) + seq![
            NoticeView::Progress("Session expires at "@ + credentials.session_expires_at@),
        ],
        notices(r@) == login_shown(credentials@, *previous),
{
    let mut r: Vec<Notice> = Vec::new();
    let who = "Logged in as ".to_string().concat(credentials.display_name().as_str());
    r.push(Notice::Progress(who));
    match previous {
        Some(p) => {
            if !same(p.user_id.as_str(), credentials.user_id.as_str()) {
                let was = "This replaces the previous login (".to_string().concat(
                    p.display_name().as_str(),
                ).concat(").");
                r.push(Notice::Progress(was));
            }
        },
        None => {},
    }
    let until = "Session expires at ".to_string().concat(credentials.session_expires_at.as_str());
    r.push(Notice::Progress(until));
    proof {
        assert(notices(r@) =~= seq![NoticeView::Progress("Logged in as "@ + called(credentials@))]
            + replaced_shown(*previous, credentials.user_id@) + seq![
            NoticeView::Progress("Session expires at "@ + credentials.session_expires_at@),
        ]);
    }
    r
}

// ---------------------------------------------------------------------------
// Logging in as a guest
// ---------------------------------------------------------------------------

/// What is said where a guest is not created, because somebody is logged in.
pub open spec fn guest_refused(existing: Option<CredentialsView>) -> Option<Seq<char>> {
    match existing {
        Some(c) => Some(
            "Already logged in as "@ + called(c)
                + ". Run `gbandit logout` first if you really want a fresh guest account."@,
        ),
        None => None,
    }
}

/// Refuses a new guest where somebody is logged in.
pub fn login_guest(existing: &Option<StoredCredentials>) -> (r: Result<(), String>)
    ensures
        match *existing {
            Some(c) => r matches Err(m) && m@ == "Already logged in as "@ + called(c@)
                + ". Run `gbandit logout` first if you really want a fresh guest account."@,
            None => r is Ok,
        },
        guest_refused(
            match *existing {
                Some(c) => Some(c@),
                None => None,
            },
        ) == match r {
            Ok(_) => None,
            Err(m) => Some(m@),
        },
{
    match existing {
        Some(c) => Err(
            "Already logged in as ".to_string().concat(c.display_name().as_str()).concat(
                ". Run `gbandit logout` first if you really want a fresh guest account.",
            ),
        ),
        None => Ok(()),
    }
}

/// The session token in one `Set-Cookie` header.
pub open spec fn token_in(cookie: Seq<char>) -> Option<Seq<char>> {
    if starts_with(cookie, "gbandit_session="@) {
        let rest = cookie.skip("gbandit_session="@.len() as int);
        let token = rest.take(upto(rest, ';'));
        if token.len() > 0 {
            Some(token)
        } else {
            None
        }
    } else {
        None
    }
}

/// The session token in the first header that holds one.
pub open spec fn first_token(cookies: Seq<Seq<char>>) -> Option<Seq<char>>
    decreases cookies.len(),
{
    if cookies.len() == 0 {
        None
    } else {
        match token_in(cookies[0]) {
            Some(token) => Some(token),
            None => first_token(cookies.skip(1)),
        }
    }
}

fn cookie_token(cookie: &str) -> (r: Option<String>)
    ensures
        opt_text(r) == token_in(cookie@),
{
    match after_prefix(cookie, "gbandit_session=") {
        Some(rest) => {
            let parts = split_at(rest.as_str(), ';');
            proof {
                lemma_first_part(rest@, ';');
                assert(texts(parts@)[0] == parts@[0]@);
            }
            let token = parts[0].clone();
            if token.as_str().is_empty() {
                None
            } else {
                Some(token)
            }
        },
        None => None,
    }
}

proof fn lemma_first_part(s: Seq<char>, c: char)
    ensures
        split(s, c).len() >= 1,
        split(s, c)[0] == s.take(upto(s, c)),
{
    lemma_upto_char(s, c);
    if upto(s, c) == s.len() {
        assert(s.take(upto(s, c)) =~= s);
    }
}

/// The session token among the `Set-Cookie` headers of a reply.
pub fn session_cookie_value(cookies: &Vec<String>) -> (r: Option<String>)
    ensures
        opt_text(r) == first_token(texts(cookies@)),
{
    let mut i: usize = 0;
    let ghost all = texts(cookies@);
    proof {
        assert(all.skip(0) =~= all);
    }
    while i < cookies.len()
        invariant
            i <= cookies@.len(),
            all == texts(cookies@),
            first_token(all.skip(i as int)) == first_token(all),
        decreases cookies@.len() - i,
    {
        proof {
            assert(all.skip(i as int).skip(1) =~= all.skip(i + 1));
            assert(all.skip(i as int)[0] == cookies@[i as int]@);
        }
        let token = cookie_token(cookies[i].as_str());
        if token.is_some() {
            return token;
        }
        i = i + 1;
    }
    None
}

/// The session token of a guest, or what to say where the reply holds none.
pub fn guest_token(cookies: &Vec<String>) -> (r: Result<String, String>)
    ensures
        match first_token(texts(cookies@)) {
            Some(token) => r matches Ok(t) && t@ == token,
            None => r matches Err(m) && m@
                == "auth server response did not include a session cookie — is the server up to date?"@,
        },
{
    match session_cookie_value(cookies) {
        Some(token) => Ok(token),
        None => Err(
            "auth server response did not include a session cookie — is the server up to date?".to_string(),
        ),
    }
}

/// What is said of a new guest.
pub fn guest_created(username: Option<&str>) -> (r: Vec<Notice>)
    ensures
        notices(r@) == seq![
            NoticeView::Progress(
                match opt_str(username) {
                    Some(username) => "Created guest account @"@ + username + "."@,
                    None => "Created guest account."@,
                },
            ),
            NoticeView::Progress(
                "Upgrade to Google any time with `gbandit login` — your username and projects are kept."@,
            ),
        ],
{
    let created = match username {
        Some(username) => "Created guest account @".to_string().concat(username).concat("."),
        None => "Created guest account.".to_string(),
    };
    let mut r: Vec<Notice> = Vec::new();
    r.push(Notice::Progress(created));
    r.push(
        Notice::Progress(
            "Upgrade to Google any time with `gbandit login` — your username and projects are kept.".to_string(),
        ),
    );
    proof {
        assert(notices(r@) =~= seq![r@[0]@, r@[1]@]);
    }
    r
}

// ---------------------------------------------------------------------------
// The link to the browser
// ---------------------------------------------------------------------------

/// Whether the link that opens the project in a browser is asked for. `stored` is, of a login
/// on disk, whether the link was shown.
pub open spec fn link_wanted(from_environment: bool, stored: Option<bool>) -> bool {
    !from_environment && stored == Some(false)
}

/// The link that is shown.
pub open spec fn link_of(status: Option<u16>, url: Option<String>) -> Option<String> {
    match status {
        Some(status) => if success(status) {
            url
        } else {
            None
        },
        None => None,
    }
}

/// Whether to ask for the link that opens the project in a browser: only for a login on
/// disk, and only once. A session that the environment provides has nobody at a browser.
pub fn wants_handoff(
    access_token_set: bool,
    session_token_set: bool,
    credentials: &Option<StoredCredentials>,
) -> (r: bool)
    ensures
        r == (!access_token_set && !session_token_set && (credentials matches Some(c)
            && !c.browser_handoff_shown)),
        r == link_wanted(
            access_token_set || session_token_set,
            match *credentials {
                Some(c) => Some(c.browser_handoff_shown),
                None => None,
            },
        ),
{
    if access_token_set || session_token_set {
        return false;
    }
    match credentials {
        Some(c) => !c.browser_handoff_shown,
        None => false,
    }
}

/// The link that opens the project in a browser, where the request for it was answered with
/// one. `status` is none where it was not answered, `url` where the reply could not be read.
/// Any failure just leaves the link out.
pub fn first_deploy_handoff_link(status: Option<u16>, url: Option<String>) -> (r: Option<String>)
    ensures
        r == match status {
            Some(status) => if success(status) {
                url
            } else {
                None
            },
            None => None,
        },
        r == link_of(status, url),
{
    match status {
        Some(status) => {
            if is_success(status) {
                url
            } else {
                None
            }
        },
        None => None,
    }
}

/// A login whose link was shown.
pub open spec fn with_link_shown(c: CredentialsView) -> CredentialsView {
    CredentialsView { browser_handoff_shown: true, ..c }
}

/// The login once the link was shown.
pub fn handoff_shown(credentials: StoredCredentials) -> (r: StoredCredentials)
    ensures
        r@ == (CredentialsView { browser_handoff_shown: true, ..credentials@ }),
        r@ == with_link_shown(credentials@),
{
    let mut shown = credentials;
    shown.browser_handoff_shown = true;
    shown
}

// ---------------------------------------------------------------------------
// Who is logged in
// ---------------------------------------------------------------------------

/// What is said of a login.
pub open spec fn whoami_shown(c: CredentialsView) -> Seq<NoticeView> {
    let name = match c.name {
        Some(name) => seq![NoticeView::Progress("  Name:    "@ + name)],
        None => Seq::empty(),
    };
    let email = match c.email {
        Some(email) => seq![NoticeView::Progress("  Email:   "@ + email)],
        None => Seq::empty(),
    };
    seq![NoticeView::Progress("Logged in as "@ + called(c))] + name + email + seq![
        NoticeView::Progress("  User ID: "@ + c.user_id),
        NoticeView::Progress("  Session expires at "@ + c.session_expires_at),
    ]
}

/// What is said of a login, before its session is tried.
pub fn whoami(credentials: &StoredCredentials) -> (r: Vec<Notice>)
    ensures
        notices(r@) == whoami_shown(credentials@),
{
    let mut r: Vec<Notice> = Vec::new();
    let who = "Logged in as ".to_string().concat(credentials.display_name().as_str());
    r.push(Notice::Progress(who));
    match &credentials.name {
        Some(name) => {
            r.push(Notice::Progress("  Name:    ".to_string().concat(name.as_str())));
        },
        None => {},
    }
    match &credentials.email {
        Some(email) => {
            r.push(Notice::Progress("  Email:   ".to_string().concat(email.as_str())));
        },
        None => {},
    }
    r.push(Notice::Progress("  User ID: ".to_string().concat(credentials.user_id.as_str())));
    r.push(
        Notice::Progress(
            "  Session expires at ".to_string().concat(credentials.session_expires_at.as_str()),
        ),
    );
    proof {
        assert(notices(r@) =~= whoami_shown(credentials@));
    }
    r
}

/// What is said of a session that was tried.
pub fn session_tried(valid: bool) -> (r: String)
    ensures
        r@ == if valid {
            "  Session is valid."@
        } else {
            "  Session is expired or invalid. Run `gbandit login` to re-authenticate."@
        },
{
    if valid {
        "  Session is valid.".to_string()
    } else {
        "  Session is expired or invalid. Run `gbandit login` to re-authenticate.".to_string()
    }
}

/// What is said of a session that the auth server turned away, at time `now`.
pub open spec fn rejected_text(expires_at: Seq<char>, now: Instant) -> Seq<char> {
    if login_expired(expires_at, now) {
        "Session expired at "@ + expires_at + ". Run `gbandit login` to re-authenticate."@
    } else {
        "Session is no longer valid. Run `gbandit login` to re-authenticate."@
    }
}

/// What is said of a session that the auth server turned away, at time `now`.
pub fn session_rejected_at(expires_at: &str, now: Instant) -> (r: String)
    ensures
        r@ == rejected_text(expires_at@, now),
{
    let expired = match parse_rfc3339(expires_at) {
        Some(expiry) => is_not_after(expiry, now),
        None => false,
    };
    if expired {
        "Session expired at ".to_string().concat(expires_at).concat(
            ". Run `gbandit login` to re-authenticate.",
        )
    } else {
        "Session is no longer valid. Run `gbandit login` to re-authenticate.".to_string()
    }
}

/// What is said, by the clock, of a session that the auth server turned away.
pub fn session_rejected_message(credentials: &StoredCredentials) -> (r: String)
    ensures
        exists|now: Instant| r@ == #[trigger] rejected_text(credentials.session_expires_at@, now),
{
    session_rejected_at(credentials.session_expires_at.as_str(), utc_now())
}

/// Whether a status says that a session was turned away.
pub open spec fn turned_away(status: u16) -> bool {
    status == 401
}

/// Whether the auth server turned a session away when it was asked for a token: then what
/// to say of it. Any other reply is read as it is.
pub fn cli_access_token(credentials: &StoredCredentials, status: u16) -> (r: Result<(), String>)
    ensures
        match r {
            Ok(()) => status != 401,
            Err(m) => status == 401 && exists|now: Instant|
                m@ == #[trigger] rejected_text(credentials.session_expires_at@, now),
        },
        r is Err <==> turned_away(status),
{
    if status == 401 {
        return Err(session_rejected_message(credentials));
    }
    Ok(())
}

// ---------------------------------------------------------------------------
// Logging out
// ---------------------------------------------------------------------------

/// What to do to log out.
#[derive(Debug)]
pub enum LogoutNext {
    /// Revoke the session at the auth server, and come back with what came of it.
    Revoke,
    /// Remove the file where `remove` says so, and say this.
    Finish { remove: bool, say: String },
}

/// What came of revoking a session.
#[derive(Debug)]
pub enum Revoked {
    NotTried,
    Done,
    Failed(String),
}

/// [`LogoutNext`], as characters.
pub enum LogoutView {
    Revoke,
    Finish { remove: bool, say: Seq<char> },
}

impl View for LogoutNext {
    type V = LogoutView;

    open spec fn view(&self) -> LogoutView {
        match self {
            LogoutNext::Revoke => LogoutView::Revoke,
            LogoutNext::Finish { remove, say } => LogoutView::Finish { remove: *remove, say: say@ },
        }
    }
}

/// What is done to log out.
pub open spec fn logout_step(readable: bool, exists_: bool, revoked: Revoked) -> LogoutView {
    if readable && revoked is NotTried {
        LogoutView::Revoke
    } else if readable {
        LogoutView::Finish {
            remove: exists_,
            say: match revoked {
                Revoked::Failed(why) => "Logged out locally, but the session could not be revoked on the server: "@
                    + why@,
                _ => "Logged out."@,
            },
        }
    } else if exists_ {
        LogoutView::Finish { remove: true, say: "Logged out."@ }
    } else {
        LogoutView::Finish { remove: false, say: "Already logged out."@ }
    }
}

/// What to do to log out. `readable` says whether the login could be loaded, `exists`
/// whether there is a file. Revoking is a courtesy: the file goes whatever comes of it, so
/// that nobody is stuck with a dead session or without a network.
pub fn logout(readable: bool, exists: bool, revoked: Revoked) -> (r: LogoutNext)
    ensures
        if readable && revoked is NotTried {
            r is Revoke
        } else {
            r matches LogoutNext::Finish { remove, say } && remove == exists && say@
                == if !readable {
                if exists {
                    "Logged out."@
                } else {
                    "Already logged out."@
                }
            } else {
                match revoked {
                    Revoked::Failed(why) => "Logged out locally, but the session could not be revoked on the server: "@
                        + why@,
                    _ => "Logged out."@,
                }
            }
        },
        r@ == logout_step(readable, exists, revoked),
{
    if !readable {
        let say = if exists {
            "Logged out.".to_string()
        } else {
            "Already logged out.".to_string()
        };
        return LogoutNext::Finish { remove: exists, say };
    }
    match revoked {
        Revoked::NotTried => LogoutNext::Revoke,
        Revoked::Done => LogoutNext::Finish { remove: exists, say: "Logged out.".to_string() },
        Revoked::Failed(why) => LogoutNext::Finish {
            remove: exists,
            say: "Logged out locally, but the session could not be revoked on the server: ".to_string().concat(
                why.as_str(),
            ),
        },
    }
}

// ---------------------------------------------------------------------------
// Laws
// ---------------------------------------------------------------------------

/// An email is what a user is called by wherever there is one; the name comes next, and the
/// id is used only where there is neither.
pub proof fn law_how_users_are_called(c: CredentialsView)
    ensures
        c.email is Some ==> called(c) == c.email->0,
        c.email is None && c.name is Some ==> called(c) == c.name->0,
        c.email is None && c.name is None ==> called(c) == c.user_id,
{
}

/// The addresses of this machine, and the names under them, all belong to one deployment.
pub proof fn law_this_machine_is_one_deployment(name: Seq<char>)
    ensures
        is_local("localhost"@),
        is_local("127.0.0.1"@),
        is_local(name + ".localhost"@),
        deployment("localhost"@) == deployment("127.0.0.1"@),
        deployment(name + ".localhost"@) == deployment("localhost"@),
{
    law_texts_contain_their_parts(name, ".localhost"@, Seq::empty());
}

/// A host of the network with two labels is a deployment of its own.
pub proof fn law_hosts_of_two_labels_are_deployments(a: Seq<char>, b: Seq<char>)
    requires
        !a.contains('.'),
        !b.contains('.'),
        !is_local(a + seq!['.'] + b),
    ensures
        deployment(a + seq!['.'] + b) == a + seq!['.'] + b,
{
    lemma_split_concat(a, b, '.');
    lemma_upto_char(a, '.');
    lemma_upto_char(b, '.');
    if upto(a, '.') < a.len() {
        assert(a.contains(a[upto(a, '.')]));
    }
    if upto(b, '.') < b.len() {
        assert(b.contains(b[upto(b, '.')]));
    }
    reveal_strlit(".");
    assert("."@ =~= seq!['.']);
    assert(split(a + seq!['.'] + b, '.') =~= seq![a, b]);
}

/// A token that was set counts where it holds anything but white space, and a login always
/// does.
pub proof fn law_what_authenticates(before: Seq<char>, token: Seq<char>, after: Seq<char>, stored: bool)
    requires
        forall|i: int| 0 <= i < before.len() ==> white(#[trigger] before[i]),
        forall|i: int| 0 <= i < after.len() ==> white(#[trigger] after[i]),
        token.len() > 0 ==> !white(token[0]) && !white(token.last()),
    ensures
        usable(Some(before + token + after)) <==> token.len() > 0,
        !usable(None),
        authenticated(Some(before + token + after), stored) <==> token.len() > 0 || stored,
        authenticated(None, stored) <==> stored,
{
    law_trimming_keeps_the_middle(before, token, after);
}

/// The environment makes a login only with both a session and a user, at the origins that are
/// set, and nobody is shown a browser link for it.
pub proof fn law_sessions_of_the_environment(
    session: Option<Seq<char>>,
    user: Option<Seq<char>>,
    auth: Seq<char>,
    platform: Seq<char>,
)
    ensures
        env_login(session, user, auth, platform) is Some <==> session is Some && user is Some,
        session is Some && user is Some ==> {
            let c = env_login(session, user, auth, platform)->0;
            &&& c.session_token == session->0
            &&& c.user_id == user->0
            &&& called(c) == user->0
            &&& c.auth_origin == auth
            &&& c.platform_api_origin == platform
            &&& !link_wanted(true, Some(c.browser_handoff_shown))
            &&& !link_wanted(false, Some(c.browser_handoff_shown))
        },
{
}

/// A login that was found is used; one that was not is a failure that tells to log in, with
/// what went wrong where something did.
pub proof fn law_lost_logins_tell_to_log_in(found: StoredCredentials, why: String, path: Seq<char>)
    ensures
        file_fault(CredentialsFile::Found(found), path) is None,
        file_fault(CredentialsFile::Missing, path) matches Some(f) && f.cause is None,
        file_fault(CredentialsFile::Unreadable(why), path) matches Some(f) && f.cause == Some(why@)
            && ends_with(f.message, path),
        file_fault(CredentialsFile::Corrupt(why), path) matches Some(f) && f.cause == Some(why@)
            && contains(f.message, path),
{
    law_texts_contain_their_parts("failed to read credentials file "@, path, Seq::empty());
    law_texts_contain_their_parts(
        "credentials file "@,
        path,
        " is unreadable — run `gbandit login` to re-authenticate"@,
    );
}

/// A request to log in has expired from the very time on that it names, and not before.
pub proof fn law_logins_expire_on_time(expires_at: Seq<char>, expiry: Instant, now: Instant)
    requires
        rfc3339_instant(expires_at) == Some(expiry),
    ensures
        login_expired(expires_at, expiry),
        now.seconds > expiry.seconds ==> login_expired(expires_at, now),
        now.seconds < expiry.seconds ==> !login_expired(expires_at, now),
        now.seconds == expiry.seconds ==> (login_expired(expires_at, now) <==> now.nanos
            >= expiry.nanos),
{
}

/// A time that cannot be read never comes.
pub proof fn law_unreadable_times_never_come(expires_at: Seq<char>, now: Instant)
    requires
        rfc3339_instant(expires_at) is None,
    ensures
        !login_expired(expires_at, now),
        rejected_text(expires_at, now)
            == "Session is no longer valid. Run `gbandit login` to re-authenticate."@,
{
}

/// A session that was turned away is said to have expired exactly where its time has come.
pub proof fn law_expired_sessions_say_when(expires_at: Seq<char>, now: Instant)
    ensures
        login_expired(expires_at, now) ==> rejected_text(expires_at, now) == "Session expired at "@
            + expires_at + ". Run `gbandit login` to re-authenticate."@,
        !login_expired(expires_at, now) ==> rejected_text(expires_at, now)
            == "Session is no longer valid. Run `gbandit login` to re-authenticate."@,
{
}

/// A poll is made again only where the server accepted it and has no answer yet, after the
/// pause that the server asked for.
pub proof fn law_polls_wait_as_asked(status: u16, interval: u64)
    ensures
        polled(status, interval) == PollNext::Wait(interval) <==> status == 202,
        status != 202 ==> polled(status, interval) == PollNext::Read,
{
}

/// A login keeps what the server said of the session, and where it was opened; nobody was
/// shown a link for it yet.
pub proof fn law_logins_keep_the_session(auth: Seq<char>, platform: Seq<char>, opened: OpenedSession)
    ensures
        ({
            let c = login_of(auth, platform, opened);
            &&& c.auth_origin == auth
            &&& c.platform_api_origin == platform
            &&& c.session_token == opened.session_token@
            &&& c.session_expires_at == opened.session_expires_at@
            &&& c.user_id == opened.user_id@
            &&& c.email == opt_text(opened.email)
            &&& c.name == opt_text(opened.name)
            &&& link_wanted(false, Some(c.browser_handoff_shown))
        }),
{
}

/// A login says who it is and until when; that it took the place of another is said exactly
/// where the user is another, and names the one of before.
pub proof fn law_a_change_of_user_is_told(c: CredentialsView, previous: StoredCredentials)
    ensures
        login_shown(c, None).len() == 2,
        login_shown(c, Some(previous)).len() == 3 <==> previous.user_id@ != c.user_id,
        login_shown(c, Some(previous)).len() == 2 <==> previous.user_id@ == c.user_id,
        login_shown(c, Some(previous))[0] == NoticeView::Progress("Logged in as "@ + called(c)),
        login_shown(c, Some(previous)).last() == NoticeView::Progress(
            "Session expires at "@ + c.session_expires_at,
        ),
        previous.user_id@ != c.user_id ==> login_shown(c, Some(previous))[1]
            == NoticeView::Progress(
            "This replaces the previous login ("@ + called(previous@) + ")."@,
        ),
{
}

/// No guest is created where anybody is logged in, and the refusal names them.
pub proof fn law_no_guest_beside_a_login(c: CredentialsView)
    ensures
        guest_refused(None) is None,
        guest_refused(Some(c)) is Some,
        starts_with(guest_refused(Some(c))->0, "Already logged in as "@ + called(c)),
{
    law_texts_contain_their_parts(
        Seq::empty(),
        "Already logged in as "@ + called(c),
        ". Run `gbandit logout` first if you really want a fresh guest account."@,
    );
}

/// The token of a session cookie is all that stands between its name and the first
/// semicolon.
pub proof fn law_tokens_end_at_semicolons(token: Seq<char>, rest: Seq<char>)
    requires
        !token.contains(';'),
        token.len() > 0,
    ensures
        token_in("gbandit_session="@ + token) == Some(token),
        token_in("gbandit_session="@ + token + seq![';'] + rest) == Some(token),
        token_in("gbandit_session="@) is None,
        token_in("gbandit_session="@ + seq![';'] + rest) is None,
{
    let name = "gbandit_session="@;
    let none = Seq::<char>::empty();
    let n = name.len() as int;
    law_texts_contain_their_parts(none, name, token);
    law_texts_contain_their_parts(none, name, token + seq![';'] + rest);
    law_texts_contain_their_parts(none, name, none);
    law_texts_contain_their_parts(none, name, seq![';'] + rest);
    assert(name + token + seq![';'] + rest =~= name + (token + seq![';'] + rest));
    assert(name + seq![';'] + rest =~= name + (seq![';'] + rest));
    assert(name + none =~= name);
    assert((name + token).skip(n) =~= token);
    assert((name + (token + seq![';'] + rest)).skip(n) =~= token + seq![';'] + rest);
    assert((name + (seq![';'] + rest)).skip(n) =~= seq![';'] + rest);
    assert(name.skip(n) =~= none);
    lemma_upto_char(token, ';');
    if upto(token, ';') < token.len() {
        assert(token.contains(token[upto(token, ';')]));
    }
    lemma_upto_prefix(token, rest, ';');
    assert(token.take(token.len() as int) =~= token);
    assert((token + seq![';'] + rest).take(token.len() as int) =~= token);
    assert((seq![';'] + rest)[0] == ';');
}

/// Other cookies hold no token of a session, and the first one that does counts.
pub proof fn law_the_first_session_cookie_counts(
    others: Seq<Seq<char>>,
    cookie: Seq<char>,
    rest: Seq<Seq<char>>,
)
    requires
        forall|i: int| 0 <= i < others.len() ==> token_in(#[trigger] others[i]) is None,
        token_in(cookie) is Some,
    ensures
        first_token(others + seq![cookie] + rest) == token_in(cookie),
        first_token(others) is None,
        starts_with(cookie, "gbandit_session="@),
    decreases others.len(),
{
    let all = others + seq![cookie] + rest;
    if others.len() == 0 {
        assert(all[0] == cookie);
    } else {
        assert(all[0] == others[0]);
        assert(all.skip(1) =~= others.skip(1) + seq![cookie] + rest);
        assert forall|i: int| 0 <= i < others.skip(1).len() implies token_in(
            #[trigger] others.skip(1)[i],
        ) is None by {
            assert(others.skip(1)[i] == others[i + 1]);
        }
        law_the_first_session_cookie_counts(others.skip(1), cookie, rest);
    }
}

/// The link to the browser is asked for once for each login on disk, never for one of the
/// environment, and shown only where the server gave it.
pub proof fn law_links_are_shown_once(url: String, status: u16)
    ensures
        link_wanted(false, Some(false)),
        !link_wanted(false, Some(true)),
        !link_wanted(false, None),
        !link_wanted(true, Some(false)),
        !link_wanted(true, Some(true)),
        !link_wanted(true, None),
        link_of(Some(status), Some(url)) == Some(url) <==> success(status),
        link_of(Some(status), Some(url)) is None <==> !success(status),
        link_of(None, Some(url)) is None,
        link_of(Some(status), None) is None,
{
}

/// What is said of a login names the user first, then what is known of them, and the end of
/// the session last.
pub proof fn law_what_is_said_of_a_login(c: CredentialsView)
    ensures
        ({
            let shown = whoami_shown(c);
            let n = shown.len();
            &&& n == 3 + (if c.name is Some { 1int } else { 0 }) + (if c.email is Some {
                1int
            } else {
                0
            })
            &&& shown[0] == NoticeView::Progress("Logged in as "@ + called(c))
            &&& c.name is Some ==> shown[1] == NoticeView::Progress("  Name:    "@ + c.name->0)
            &&& c.email is Some ==> shown[n - 3] == NoticeView::Progress(
                "  Email:   "@ + c.email->0,
            )
            &&& shown[n - 2] == NoticeView::Progress("  User ID: "@ + c.user_id)
            &&& shown[n - 1] == NoticeView::Progress(
                "  Session expires at "@ + c.session_expires_at,
            )
        }),
{
}

/// A session was turned away only where the server says so.
pub proof fn law_only_refused_sessions_are_turned_away(status: u16)
    ensures
        turned_away(status) <==> status == 401,
{
}

/// Logging out revokes a session that can be read before anything is removed, and then removes
/// the file whatever came of that: nobody is stuck with a dead session.
pub proof fn law_logging_out_removes_the_file(readable: bool, file: bool, revoked: Revoked, why: String)
    ensures
        logout_step(readable, file, revoked) is Revoke <==> readable && revoked is NotTried,
        logout_step(readable, file, revoked) matches LogoutView::Finish { remove, say } ==> remove
            == file,
        readable ==> (logout_step(readable, file, Revoked::Failed(why)) matches LogoutView::Finish {
            remove,
            say,
        } && ends_with(say, why@)),
        readable ==> logout_step(readable, file, Revoked::Done) == (LogoutView::Finish {
            remove: file,
            say: "Logged out."@,
        }),
        !readable ==> logout_step(readable, file, revoked) == logout_step(
            readable,
            file,
            Revoked::Done,
        ),
{
    law_texts_contain_their_parts(
        "Logged out locally, but the session could not be revoked on the server: "@,
        why@,
        Seq::empty(),
    );
}

/// A token that was set is used as it is, white space included, and none is made up; a blank
/// one leaves the login to be used.
pub proof fn law_tokens_are_used_as_they_are(token: Seq<char>)
    ensures
        set_token(None) is None,
        set_token(Some(token)) == Some(token) <==> trim(token).len() > 0,
        set_token(Some(token)) is None <==> trim(token).len() == 0,
        set_token(Some(token)) is Some <==> authenticated(Some(token), false),
{
}

/// A new login is proved to be the old user's with the old session, and with nothing where
/// there was none.
pub proof fn law_guests_are_upgraded_with_their_session(c: CredentialsView)
    ensures
        proof_of(Some(c)) == Some(c.session_token),
        proof_of(None) is None,
{
}

/// A login belongs to the host of its origin, and to the origin itself where that has none.
pub proof fn law_logins_belong_to_a_host(origin: Seq<char>)
    ensures
        host_of(origin) is Some ==> origin_host(origin) == host_of(origin)->0,
        host_of(origin) is None ==> origin_host(origin) == origin,
{
}

/// Showing the link changes nothing of a login but that it is not shown again.
pub proof fn law_shown_links_keep_the_login(c: CredentialsView)
    ensures
        ({
            let after = with_link_shown(c);
            &&& !link_wanted(false, Some(after.browser_handoff_shown))
            &&& after.auth_origin == c.auth_origin
            &&& after.platform_api_origin == c.platform_api_origin
            &&& after.session_token == c.session_token
            &&& after.session_expires_at == c.session_expires_at
            &&& after.user_id == c.user_id
            &&& after.email == c.email
            &&& after.name == c.name
        }),
{
}

} // verus!
