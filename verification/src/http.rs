//! What a reply of the platform means: success, a structured error, or a body that cannot
//! be read.

use vstd::prelude::*;
use vstd::string::*;

use crate::outside::{lossy, status_display, status_line, utf8_lossy};
use crate::text::{opt_text, same, trim, trimmed};

verus! {

/// An error body of the platform: `error` is always a message for people; `code` and
/// `issues` are there for failures that a program can act on.
#[derive(Debug)]
pub struct ApiError {
    pub error: String,
    pub code: Option<String>,
    pub issues: Vec<ApiErrorIssue>,
}

/// One issue of an error body.
#[derive(Debug)]
pub struct ApiErrorIssue {
    pub path: Option<String>,
    pub message: Option<String>,
    pub docs_url: Option<String>,
}

/// How an issue is shown below its error.
pub open spec fn issue_text(issue: ApiErrorIssue) -> Seq<char> {
    let path = match issue.path {
        Some(path) => path@ + ": "@,
        None => Seq::empty(),
    };
    let message = match issue.message {
        Some(message) => message@,
        None => "invalid"@,
    };
    let docs = match issue.docs_url {
        Some(docs) => " (see "@ + docs@ + ")"@,
        None => Seq::empty(),
    };
    "\n  - "@ + path + message + docs
}

/// How issues are shown, one after the other.
pub open spec fn issues_text(issues: Seq<ApiErrorIssue>) -> Seq<char>
    decreases issues.len(),
{
    if issues.len() == 0 {
        Seq::empty()
    } else {
        issues_text(issues.drop_last()) + issue_text(issues.last())
    }
}

/// Whether an HTTP status says that the request succeeded.
pub open spec fn success(status: u16) -> bool {
    200 <= status <= 299
}

/// What an HTTP status can be.
pub open spec fn is_status(status: u16) -> bool {
    100 <= status <= 999
}

/// The error text before any advice: the platform's own, or the bare status.
pub open spec fn raw_error(status: u16, payload: Option<ApiError>) -> Seq<char> {
    match payload {
        Some(api) => api.error@,
        None => "request failed with status "@ + status_display(status),
    }
}

/// The code of an error.
pub open spec fn kept_code(payload: Option<ApiError>) -> Option<Seq<char>> {
    match payload {
        Some(api) => opt_text(api.code),
        None => None,
    }
}

/// The issues of an error.
pub open spec fn kept_issues(payload: Option<ApiError>) -> Seq<ApiErrorIssue> {
    match payload {
        Some(api) => api.issues@,
        None => Seq::empty(),
    }
}

/// The advice that follows an error text.
pub open spec fn advice(status: u16, code: Option<Seq<char>>) -> Seq<char> {
    if status == 401 {
        " — run `gbandit login` to re-authenticate"@
    } else if code == Some("cli_outdated"@) {
        " — run `gbandit update`"@
    } else {
        Seq::empty()
    }
}

/// The start of a body for an error message.
pub open spec fn snippet(text: Seq<char>) -> Seq<char> {
    let body = trim(text);
    if body.len() == 0 {
        "<empty body>"@
    } else if body.len() <= 200 {
        body
    } else {
        body.take(200) + "…"@
    }
}

impl ApiError {
    /// Whether the error carries `code`.
    pub fn has_code(&self, code: &str) -> (r: bool)
        ensures
            r == (opt_text(self.code) == Some(code@)),
    {
        match &self.code {
            Some(own) => same(own.as_str(), code),
            None => false,
        }
    }

    /// The error with its issues below it.
    pub fn message(&self) -> (r: String)
        ensures
            r@ == self.error@ + issues_text(self.issues@),
    {
        let mut out = self.error.clone();
        let mut i: usize = 0;
        while i < self.issues.len()
            invariant
                i <= self.issues@.len(),
                out@ =~= self.error@ + issues_text(self.issues@.take(i as int)),
            decreases self.issues@.len() - i,
        {
            let issue = &self.issues[i];
            out.append(issue_line(issue).as_str());
            proof {
                let next = self.issues@.take(i + 1);
                assert(next.drop_last() =~= self.issues@.take(i as int));
                assert(next.last() == *issue);
            }
            i = i + 1;
        }
        proof {
            assert(self.issues@.take(i as int) =~= self.issues@);
        }
        out
    }
}

/// How an issue is shown below its error.
fn issue_line(issue: &ApiErrorIssue) -> (r: String)
    ensures
        r@ == issue_text(*issue),
{
    let mut r = "\n  - ".to_string();
    let path = match &issue.path {
        Some(path) => path.clone().concat(": "),
        None => String::new(),
    };
    r.append(path.as_str());
    match &issue.message {
        Some(message) => r.append(message.as_str()),
        None => r.append("invalid"),
    }
    let docs = match &issue.docs_url {
        Some(docs) => " (see ".to_string().concat(docs.as_str()).concat(")"),
        None => String::new(),
    };
    r.append(docs.as_str());
    r
}

/// Whether an HTTP status says that the request succeeded.
pub fn is_success(status: u16) -> (r: bool)
    ensures
        r == success(status),
{
    200 <= status && status <= 299
}

/// The error that a failed request stands for. `payload` is the structured error of the
/// body, where it has one.
pub fn parse_error(status: u16, payload: Option<ApiError>) -> (r: ApiError)
    requires
        is_status(status),
    ensures
        opt_text(r.code) == match payload {
            Some(api) => opt_text(api.code),
            None => None,
        },
        r.error@ == raw_error(status, payload) + advice(status, opt_text(r.code)),
        match payload {
            Some(api) => r.issues@ == api.issues@,
            None => r.issues@.len() == 0,
        },
        opt_text(r.code) == kept_code(payload),
        r.issues@ == kept_issues(payload),
{
    let mut parsed = match payload {
        Some(api) => api,
        None => {
            let mut error = "request failed with status ".to_string();
            error.append(status_line(status).as_str());
            ApiError { error, code: None, issues: Vec::new() }
        },
    };
    let ghost raw = parsed.error@;
    if status == 401 {
        parsed.error.append(" — run `gbandit login` to re-authenticate");
    } else if parsed.has_code("cli_outdated") {
        parsed.error.append(" — run `gbandit update`");
    }
    proof {
        assert(parsed.error@ =~= raw + advice(status, opt_text(parsed.code)));
    }
    parsed
}

/// The start of a text for an error message.
pub fn snippet_of(text: &str) -> (r: String)
    ensures
        r@ == snippet(text@),
{
    let body = trimmed(text);
    if body.as_str().is_empty() {
        return "<empty body>".to_string();
    }
    if body.as_str().unicode_len() <= 200 {
        return body;
    }
    let mut r = body.as_str().substring_char(0, 200).to_string();
    r.append("…");
    proof {
        assert(body@.subrange(0, 200) =~= body@.take(200));
    }
    r
}

/// The start of a response body for an error message.
pub fn body_snippet(bytes: &[u8]) -> (r: String)
    ensures
        r@ == snippet(utf8_lossy(bytes@)),
{
    snippet_of(lossy(bytes).as_str())
}

/// What to say of a reply that succeeded and whose body is not the JSON that was expected.
pub fn decode_failure(status: u16, body: &[u8]) -> (r: String)
    requires
        is_status(status),
    ensures
        r@ == "failed to decode response JSON (status "@ + status_display(status) + "): "@
            + snippet(utf8_lossy(body@)),
{
    let mut r = "failed to decode response JSON (status ".to_string();
    r.append(status_line(status).as_str());
    r.append("): ");
    r.append(body_snippet(body).as_str());
    r
}

/// The headers of every request: which client it is, so that the platform can serve each
/// version its own way and turn outdated ones away.
pub fn client_headers(build_version: &str, package_version: &str) -> (r: Vec<(String, String)>)
    ensures
        r@.len() == 3,
        r@[0].0@ == "gbandit-client"@ && r@[0].1@ == "gbandit-cli/"@ + build_version@,
        r@[1].0@ == "x-gbandit-cli-version"@ && r@[1].1@ == package_version@,
        r@[2].0@ == "user-agent"@ && r@[2].1@ == "gbandit-cli"@,
{
    let mut client = "gbandit-cli/".to_string();
    client.append(build_version);
    let mut r: Vec<(String, String)> = Vec::new();
    r.push(("gbandit-client".to_string(), client));
    r.push(("x-gbandit-cli-version".to_string(), package_version.to_string()));
    r.push(("user-agent".to_string(), "gbandit-cli".to_string()));
    r
}

// ---------------------------------------------------------------------------
// Laws
// ---------------------------------------------------------------------------

/// Issues are shown below each other, in their order.
pub proof fn law_issues_are_shown_in_order(above: Seq<ApiErrorIssue>, below: Seq<ApiErrorIssue>, issue: ApiErrorIssue)
    ensures
        issues_text(above + below) == issues_text(above) + issues_text(below),
        issues_text(seq![issue]) == issue_text(issue),
    decreases below.len(),
{
    assert(seq![issue].drop_last() =~= Seq::<ApiErrorIssue>::empty());
    assert(issues_text(seq![issue].drop_last()) =~= Seq::<char>::empty());
    assert(issues_text(seq![issue]) =~= issue_text(issue));
    if below.len() == 0 {
        assert(above + below =~= above);
        assert(issues_text(above) + Seq::<char>::empty() =~= issues_text(above));
    } else {
        assert((above + below).drop_last() =~= above + below.drop_last());
        assert((above + below).last() == below.last());
        law_issues_are_shown_in_order(above, below.drop_last(), issue);
        assert(issues_text(above + below) =~= issues_text(above) + issues_text(below));
    }
}

/// An issue says what is wrong, where, and where to read on, as far as it knows.
pub proof fn law_issues_say_what_they_know(issue: ApiErrorIssue)
    ensures
        issue.path is None && issue.docs_url is None && issue.message is Some ==> issue_text(issue)
            == "\n  - "@ + issue.message->0@,
        issue.path is Some && issue.docs_url is None && issue.message is Some ==> issue_text(issue)
            == "\n  - "@ + issue.path->0@ + ": "@ + issue.message->0@,
        issue.path is Some && issue.docs_url is Some && issue.message is Some ==> issue_text(issue)
            == "\n  - "@ + issue.path->0@ + ": "@ + issue.message->0@ + " (see "@
            + issue.docs_url->0@ + ")"@,
        issue.path is None && issue.docs_url is Some && issue.message is Some ==> issue_text(issue)
            == "\n  - "@ + issue.message->0@ + " (see "@ + issue.docs_url->0@ + ")"@,
{
    let none = Seq::<char>::empty();
    if issue.message is Some {
        let message = issue.message->0@;
        if issue.path is None && issue.docs_url is None {
            assert("\n  - "@ + none + message + none =~= "\n  - "@ + message);
        }
        if issue.path is Some && issue.docs_url is None {
            assert("\n  - "@ + (issue.path->0@ + ": "@) + message + none =~= "\n  - "@
                + issue.path->0@ + ": "@ + message);
        }
        if issue.path is Some && issue.docs_url is Some {
            assert("\n  - "@ + (issue.path->0@ + ": "@) + message + (" (see "@
                + issue.docs_url->0@ + ")"@) =~= "\n  - "@ + issue.path->0@ + ": "@ + message
                + " (see "@ + issue.docs_url->0@ + ")"@);
        }
        if issue.path is None && issue.docs_url is Some {
            assert("\n  - "@ + none + message + (" (see "@ + issue.docs_url->0@ + ")"@)
                =~= "\n  - "@ + message + " (see "@ + issue.docs_url->0@ + ")"@);
        }
    }
}

/// A request succeeded exactly where its status has two hundred and something.
pub proof fn law_what_succeeds(status: u16)
    requires
        is_status(status),
    ensures
        success(status) <==> status / 100 == 2,
{
}

/// The words of the platform come first in an error, with advice behind them where a login
/// or an update would help, and only there.
pub proof fn law_errors_keep_their_words(status: u16, api: ApiError)
    ensures
        raw_error(status, Some(api)) == api.error@,
        status == 401 ==> advice(status, opt_text(api.code))
            == " — run `gbandit login` to re-authenticate"@,
        status != 401 && api.code is Some && api.code->0@ == "cli_outdated"@ ==> advice(
            status,
            opt_text(api.code),
        ) == " — run `gbandit update`"@,
        status != 401 && (api.code is None || api.code->0@ != "cli_outdated"@) ==> advice(
            status,
            opt_text(api.code),
        ).len() == 0,
{
}

/// A body is shown as it is where it is short, and by its first two hundred characters where
/// it is not; an empty one is named.
pub proof fn law_bodies_are_cut_short(text: Seq<char>)
    ensures
        0 < trim(text).len() <= 200 ==> snippet(text) == trim(text),
        trim(text).len() > 200 ==> snippet(text).len() == 201 && snippet(text).take(200) == trim(
            text,
        ).take(200) && snippet(text).last() == '…',
        trim(text).len() == 0 ==> snippet(text) == "<empty body>"@,
{
    reveal_strlit("…");
    if trim(text).len() > 200 {
        assert(snippet(text).take(200) =~= trim(text).take(200));
    }
}

/// An error keeps its code and its issues; a reply without one has neither, and is told by its
/// status.
pub proof fn law_errors_keep_their_parts(status: u16, api: ApiError)
    ensures
        kept_code(Some(api)) == opt_text(api.code),
        kept_issues(Some(api)) == api.issues@,
        kept_code(None) is None,
        kept_issues(None).len() == 0,
        raw_error(status, None) == "request failed with status "@ + status_display(status),
{
}

/// A status has three digits, the first of which is not zero.
pub proof fn law_statuses_have_three_digits(status: u16)
    ensures
        is_status(status) <==> 1 <= status / 100 <= 9,
{
}

} // verus!
