//! The `git` runs behind a deploy. Each function looks at the runs made so far and says
//! what to run next, or what came of them.

use vstd::prelude::*;
use vstd::string::*;

use crate::fault::{caused, plain, Fault, FaultView};
use crate::lines::{lines, lines_of};
use crate::outside::{lossy, lower, lowercase, utf8_lossy};
use crate::text::{
    contains, ends_with, law_texts_contain_their_parts, law_trimming_keeps_the_middle, mentions,
    occurs_at, opt_text, starts_with, texts, trim, trimmed, white,
};

verus! {

/// A finished attempt to run `git`.
#[derive(Debug)]
pub enum GitRun {
    /// The program could not be started; the text says why.
    NotStarted(String),
    Ran { success: bool, stdout: Vec<u8>, stderr: Vec<u8> },
}

/// What to do next.
#[derive(Debug)]
pub enum GitNext<T> {
    /// Run `git` with these arguments, and come back with one run more.
    Run(Vec<String>),
    Finished(Result<T, Fault>),
}

/// Whether the next thing is to run `git` with `args`.
pub open spec fn runs_next<T>(next: GitNext<T>, args: Seq<Seq<char>>) -> bool {
    next matches GitNext::Run(a) && texts(a@) == args
}

/// What came of the work, with a failure as characters.
pub open spec fn outcome<T>(r: Result<T, Fault>) -> Result<T, FaultView> {
    match r {
        Ok(value) => Ok(value),
        Err(fault) => Err(fault@),
    }
}

/// Whether the work is over, and came to this.
pub open spec fn finished<T>(next: GitNext<T>, result: Result<T, FaultView>) -> bool {
    next matches GitNext::Finished(r) && outcome(r) == result
}

fn two(a: &str, b: &str) -> (r: Vec<String>)
    ensures
        texts(r@) == seq![a@, b@],
{
    let mut r: Vec<String> = Vec::new();
    r.push(a.to_string());
    r.push(b.to_string());
    proof {
        assert(texts(r@) =~= seq![a@, b@]);
    }
    r
}

fn three(a: &str, b: &str, c: &str) -> (r: Vec<String>)
    ensures
        texts(r@) == seq![a@, b@, c@],
{
    let mut r: Vec<String> = Vec::new();
    r.push(a.to_string());
    r.push(b.to_string());
    r.push(c.to_string());
    proof {
        assert(texts(r@) =~= seq![a@, b@, c@]);
    }
    r
}

/// What `git` wrote, as trimmed text.
pub open spec fn said(bytes: Seq<u8>) -> Seq<char> {
    trim(utf8_lossy(bytes))
}

/// The failure of a run that ended badly.
fn run_failed(what: &str, stderr: &Vec<u8>) -> (r: Fault)
    ensures
        r@ == plain(what@ + said(stderr@)),
{
    let mut m = what.to_string();
    m.append(trimmed(lossy(stderr.as_slice()).as_str()).as_str());
    Fault::plain(m)
}

// ---------------------------------------------------------------------------
// What a run says
// ---------------------------------------------------------------------------

/// Whether `b` is a byte that `git status --porcelain` writes for a clean tree.
pub open spec fn blank_byte(b: u8) -> bool {
    b == 32 || b == 9 || b == 10 || b == 13
}

/// What `git status --porcelain` says: whether the tree is clean.
pub open spec fn clean_of(run: GitRun) -> Result<bool, FaultView> {
    match run {
        GitRun::NotStarted(why) => Err(
            caused(
                "failed to run `git status` — is git installed and is this a git repository?"@,
                why@,
            ),
        ),
        GitRun::Ran { success, stdout, stderr } => if success {
            Ok(forall|i: int| 0 <= i < stdout@.len() ==> blank_byte(#[trigger] stdout@[i]))
        } else {
            Err(plain("`git status` failed: "@ + said(stderr@)))
        },
    }
}

fn all_blank(bytes: &Vec<u8>) -> (r: bool)
    ensures
        r == forall|i: int| 0 <= i < bytes@.len() ==> blank_byte(#[trigger] bytes@[i]),
{
    let mut i: usize = 0;
    while i < bytes.len()
        invariant
            i <= bytes@.len(),
            forall|j: int| 0 <= j < i ==> blank_byte(#[trigger] bytes@[j]),
        decreases bytes@.len() - i,
    {
        let b = bytes[i];
        if !(b == 32 || b == 9 || b == 10 || b == 13) {
            proof {
                assert(!blank_byte(bytes@[i as int]));
            }
            return false;
        }
        i = i + 1;
    }
    true
}

/// What `git status --porcelain` says: whether the tree is clean.
pub fn read_clean(run: &GitRun) -> (r: Result<bool, Fault>)
    ensures
        outcome(r) == clean_of(*run),
{
    match run {
        GitRun::NotStarted(why) => Err(
            Fault::caused(
                "failed to run `git status` — is git installed and is this a git repository?",
                why.as_str(),
            ),
        ),
        GitRun::Ran { success, stdout, stderr } => {
            if !*success {
                return Err(run_failed("`git status` failed: ", stderr));
            }
            Ok(all_blank(stdout))
        },
    }
}

/// What a run comes to that only has to succeed.
pub open spec fn done_of(run: GitRun, not_started: Seq<char>, failed: Seq<char>) -> Result<
    (),
    FaultView,
> {
    match run {
        GitRun::NotStarted(why) => Err(caused(not_started, why@)),
        GitRun::Ran { success, stderr, .. } => if success {
            Ok(())
        } else {
            Err(plain(failed + said(stderr@)))
        },
    }
}

fn read_done(run: &GitRun, not_started: &str, failed: &str) -> (r: Result<(), Fault>)
    ensures
        outcome(r) == done_of(*run, not_started@, failed@),
{
    match run {
        GitRun::NotStarted(why) => Err(Fault::caused(not_started, why.as_str())),
        GitRun::Ran { success, stderr, .. } => {
            if *success {
                Ok(())
            } else {
                Err(run_failed(failed, stderr))
            }
        },
    }
}

/// What `git add -A` comes to.
pub open spec fn added_of(run: GitRun) -> Result<(), FaultView> {
    done_of(run, "failed to run `git add -A`"@, "`git add -A` failed: "@)
}

/// What `git add -A` comes to.
pub fn read_added(run: &GitRun) -> (r: Result<(), Fault>)
    ensures
        outcome(r) == added_of(*run),
{
    read_done(run, "failed to run `git add -A`", "`git add -A` failed: ")
}

/// What `git commit` comes to.
pub open spec fn committed_of(run: GitRun) -> Result<(), FaultView> {
    done_of(run, "failed to run `git commit`"@, "`git commit` failed: "@)
}

/// What `git commit` comes to.
pub fn read_committed(run: &GitRun) -> (r: Result<(), Fault>)
    ensures
        outcome(r) == committed_of(*run),
{
    read_done(run, "failed to run `git commit`", "`git commit` failed: ")
}

/// Whether `git` says that there is no commit to speak of.
pub open spec fn no_such_revision(said: Seq<char>) -> bool {
    contains(said, "unknown revision"@) || contains(said, "ambiguous argument"@)
}

/// What `git rev-parse HEAD` says: the commit, or that there is none yet.
pub open spec fn head_of(run: GitRun) -> Result<Option<Seq<char>>, FaultView> {
    match run {
        GitRun::NotStarted(why) => Err(caused("failed to run `git rev-parse HEAD`"@, why@)),
        GitRun::Ran { success, stdout, stderr } => if success {
            Ok(
                if said(stdout@).len() == 0 {
                    None
                } else {
                    Some(said(stdout@))
                },
            )
        } else if no_such_revision(utf8_lossy(stderr@)) {
            Ok(None)
        } else {
            Err(plain("`git rev-parse HEAD` failed: "@ + said(stderr@)))
        },
    }
}

/// An optional text, with a failure as characters.
pub open spec fn text_outcome(r: Result<Option<String>, Fault>) -> Result<
    Option<Seq<char>>,
    FaultView,
> {
    match r {
        Ok(text) => Ok(opt_text(text)),
        Err(fault) => Err(fault@),
    }
}

/// What `git rev-parse HEAD` says: the commit, or that there is none yet.
pub fn read_head(run: &GitRun) -> (r: Result<Option<String>, Fault>)
    ensures
        text_outcome(r) == head_of(*run),
{
    match run {
        GitRun::NotStarted(why) => Err(
            Fault::caused("failed to run `git rev-parse HEAD`", why.as_str()),
        ),
        GitRun::Ran { success, stdout, stderr } => {
            if !*success {
                let text = lossy(stderr.as_slice());
                if mentions(text.as_str(), "unknown revision") || mentions(
                    text.as_str(),
                    "ambiguous argument",
                ) {
                    return Ok(None);
                }
                return Err(run_failed("`git rev-parse HEAD` failed: ", stderr));
            }
            let sha = trimmed(lossy(stdout.as_slice()).as_str());
            if sha.as_str().is_empty() {
                Ok(None)
            } else {
                Ok(Some(sha))
            }
        },
    }
}

/// The lines that are not blank, trimmed, in order.
pub open spec fn commit_ids(lines: Seq<Seq<char>>) -> Seq<Seq<char>>
    decreases lines.len(),
{
    if lines.len() == 0 {
        Seq::empty()
    } else if trim(lines.last()).len() == 0 {
        commit_ids(lines.drop_last())
    } else {
        commit_ids(lines.drop_last()).push(trim(lines.last()))
    }
}

/// The commits that a list of them names.
pub fn commits_in(listing: &str) -> (r: Vec<String>)
    ensures
        texts(r@) == commit_ids(lines(listing@)),
{
    let list = lines_of(listing);
    let ghost all = lines(listing@);
    let mut out: Vec<String> = Vec::new();
    let mut i: usize = 0;
    proof {
        assert(all.take(0) =~= Seq::<Seq<char>>::empty());
        assert(texts(out@) =~= Seq::<Seq<char>>::empty());
    }
    while i < list.len()
        invariant
            i <= list@.len(),
            texts(list@) == all,
            texts(out@) == commit_ids(all.take(i as int)),
        decreases list@.len() - i,
    {
        let id = trimmed(list[i].as_str());
        let ghost before = texts(out@);
        proof {
            let next = all.take(i + 1);
            assert(next.drop_last() =~= all.take(i as int));
            assert(texts(list@)[i as int] == list@[i as int]@);
            assert(next.last() == list@[i as int]@);
        }
        if !id.as_str().is_empty() {
            out.push(id);
            proof {
                assert(texts(out@) =~= before.push(id@));
            }
        }
        i = i + 1;
    }
    proof {
        assert(all.take(i as int) =~= all);
    }
    out
}

/// Whether `git` says, in lower case, that there is no history to list.
pub open spec fn no_history(said: Seq<char>) -> bool {
    contains(said, "not a git repository"@) || no_such_revision(said)
}

/// Whether `git` says, in lower case, that there is no history to list.
pub fn says_no_history(lowered: &str) -> (r: bool)
    ensures
        r == no_history(lowered@),
{
    mentions(lowered, "not a git repository") || mentions(lowered, "unknown revision") || mentions(
        lowered,
        "ambiguous argument",
    )
}

/// What `git rev-list HEAD` says: the commits, or that there is no history.
pub open spec fn commits_of(run: GitRun) -> Result<Option<Seq<Seq<char>>>, FaultView> {
    match run {
        GitRun::NotStarted(why) => Err(caused("failed to run `git rev-list HEAD`"@, why@)),
        GitRun::Ran { success, stdout, stderr } => if success {
            Ok(Some(commit_ids(lines(utf8_lossy(stdout@)))))
        } else if no_history(lower(utf8_lossy(stderr@))) {
            Ok(None)
        } else {
            Err(plain("`git rev-list HEAD` failed: "@ + said(stderr@)))
        },
    }
}

/// What `git rev-parse --is-inside-work-tree` says.
pub open spec fn repo_of(run: GitRun) -> Result<bool, FaultView> {
    match run {
        GitRun::NotStarted(why) => Err(caused("failed to run `git rev-parse`"@, why@)),
        GitRun::Ran { success, .. } => Ok(success),
    }
}

/// What `git rev-parse --is-inside-work-tree` says.
pub fn read_repo(run: &GitRun) -> (r: Result<bool, Fault>)
    ensures
        outcome(r) == repo_of(*run),
{
    match run {
        GitRun::NotStarted(why) => Err(Fault::caused("failed to run `git rev-parse`", why.as_str())),
        GitRun::Ran { success, .. } => Ok(*success),
    }
}

/// What `git remote get-url origin` says: whether there is an `origin`.
pub open spec fn origin_of(run: GitRun) -> Result<bool, FaultView> {
    match run {
        GitRun::NotStarted(why) => Err(
            caused("failed to run `git remote get-url origin`"@, why@),
        ),
        GitRun::Ran { success, stdout, .. } => Ok(success && stdout@.len() > 0),
    }
}

/// What `git remote get-url origin` says: whether there is an `origin`.
pub fn read_origin(run: &GitRun) -> (r: Result<bool, Fault>)
    ensures
        outcome(r) == origin_of(*run),
{
    match run {
        GitRun::NotStarted(why) => Err(
            Fault::caused("failed to run `git remote get-url origin`", why.as_str()),
        ),
        GitRun::Ran { success, stdout, .. } => Ok(*success && stdout.len() > 0),
    }
}

/// What became of a push. Without a remote the deploy goes on; the other failures are told
/// apart so that the next step can be named.
#[derive(Debug)]
pub enum PushOutcome {
    Pushed,
    /// No `origin` is configured: the project is not linked.
    NoRemote,
    /// The remote has moved on; pull or rebase and try again.
    NonFastForward { detail: String },
    /// Offline, DNS or firewall.
    Network { detail: String },
    /// The deploy key was removed, or the credentials are wrong.
    Auth { detail: String },
}

/// A [`PushOutcome`], as characters.
pub enum PushView {
    Pushed,
    NoRemote,
    NonFastForward(Seq<char>),
    Network(Seq<char>),
    Auth(Seq<char>),
}

impl View for PushOutcome {
    type V = PushView;

    open spec fn view(&self) -> PushView {
        match self {
            PushOutcome::Pushed => PushView::Pushed,
            PushOutcome::NoRemote => PushView::NoRemote,
            PushOutcome::NonFastForward { detail } => PushView::NonFastForward(detail@),
            PushOutcome::Network { detail } => PushView::Network(detail@),
            PushOutcome::Auth { detail } => PushView::Auth(detail@),
        }
    }
}

/// Whether `git`, in lower case, says that the remote has moved on.
pub open spec fn says_moved_on(said: Seq<char>) -> bool {
    ||| contains(said, "non-fast-forward"@)
    ||| contains(said, "rejected"@)
    ||| contains(said, "fetch first"@)
    ||| contains(said, "updates were rejected"@)
}

/// Whether `git`, in lower case, says that the remote cannot be reached.
pub open spec fn says_unreachable(said: Seq<char>) -> bool {
    ||| contains(said, "could not resolve host"@)
    ||| contains(said, "network is unreachable"@)
    ||| contains(said, "connection refused"@)
    ||| contains(said, "connection timed out"@)
    ||| contains(said, "temporary failure in name resolution"@)
}

/// Whether `git`, in lower case, says that the remote turned the user away.
pub open spec fn says_denied(said: Seq<char>) -> bool {
    ||| contains(said, "permission denied"@)
    ||| contains(said, "could not read from remote repository"@)
    ||| contains(said, "authentication failed"@)
    ||| contains(said, "publickey"@)
    ||| contains(said, "403"@)
}

/// What a push that failed comes to. `lowered` is what `git` said, in lower case; `None`
/// where it is none of the known failures.
pub open spec fn push_failure(stderr: Seq<char>, lowered: Seq<char>) -> Option<PushView> {
    if says_moved_on(lowered) {
        Some(PushView::NonFastForward(trim(stderr)))
    } else if says_unreachable(lowered) {
        Some(PushView::Network(trim(stderr)))
    } else if says_denied(lowered) {
        Some(PushView::Auth(trim(stderr)))
    } else {
        None
    }
}

/// What a push that failed comes to.
pub fn classify_push_failure(stderr: &str, lowered: &str) -> (r: Option<PushOutcome>)
    ensures
        match r {
            Some(outcome) => push_failure(stderr@, lowered@) == Some(outcome@),
            None => push_failure(stderr@, lowered@) is None,
        },
{
    if mentions(lowered, "non-fast-forward") || mentions(lowered, "rejected") || mentions(lowered, "fetch first")
        || mentions(lowered, "updates were rejected") {
        return Some(PushOutcome::NonFastForward { detail: trimmed(stderr) });
    }
    if mentions(lowered, "could not resolve host") || mentions(lowered, "network is unreachable") || mentions(
        lowered,
        "connection refused",
    ) || mentions(lowered, "connection timed out") || mentions(
        lowered,
        "temporary failure in name resolution",
    ) {
        return Some(PushOutcome::Network { detail: trimmed(stderr) });
    }
    if mentions(lowered, "permission denied") || mentions(lowered, "could not read from remote repository")
        || mentions(lowered, "authentication failed") || mentions(lowered, "publickey") || mentions(
        lowered,
        "403",
    ) {
        return Some(PushOutcome::Auth { detail: trimmed(stderr) });
    }
    None
}

/// What `git push` comes to.
pub open spec fn pushed_of(run: GitRun) -> Result<PushView, FaultView> {
    match run {
        GitRun::NotStarted(why) => Err(caused("failed to run `git push`"@, why@)),
        GitRun::Ran { success, stderr, .. } => if success {
            Ok(PushView::Pushed)
        } else {
            match push_failure(utf8_lossy(stderr@), lower(utf8_lossy(stderr@))) {
                Some(view) => Ok(view),
                None => Err(plain("`git push` failed: "@ + said(stderr@))),
            }
        },
    }
}

/// A push, with a failure as characters.
pub open spec fn push_outcome(r: Result<PushOutcome, Fault>) -> Result<PushView, FaultView> {
    match r {
        Ok(pushed) => Ok(pushed@),
        Err(fault) => Err(fault@),
    }
}

/// What `git push` comes to.
pub fn read_pushed(run: &GitRun) -> (r: Result<PushOutcome, Fault>)
    ensures
        push_outcome(r) == pushed_of(*run),
{
    match run {
        GitRun::NotStarted(why) => Err(Fault::caused("failed to run `git push`", why.as_str())),
        GitRun::Ran { success, stderr, .. } => {
            if *success {
                return Ok(PushOutcome::Pushed);
            }
            let text = lossy(stderr.as_slice());
            match classify_push_failure(text.as_str(), lowercase(text.as_str()).as_str()) {
                Some(outcome) => Ok(outcome),
                None => Err(run_failed("`git push` failed: ", stderr)),
            }
        },
    }
}

// ---------------------------------------------------------------------------
// What to run
// ---------------------------------------------------------------------------

/// The arguments that ask whether the directory is inside a working tree.
pub open spec fn repo_args() -> Seq<Seq<char>> {
    seq!["rev-parse"@, "--is-inside-work-tree"@]
}

/// The arguments that ask whether the working tree is clean.
pub open spec fn status_args() -> Seq<Seq<char>> {
    seq!["status"@, "--porcelain"@]
}

/// The arguments that stage everything.
pub open spec fn add_args() -> Seq<Seq<char>> {
    seq!["add"@, "-A"@]
}

/// The arguments that commit what is staged.
pub open spec fn commit_args(message: Seq<char>) -> Seq<Seq<char>> {
    seq!["commit"@, "-m"@, message]
}

/// The arguments that ask for the commit at `HEAD`.
pub open spec fn head_args() -> Seq<Seq<char>> {
    seq!["rev-parse"@, "HEAD"@]
}

/// The arguments that ask for `origin`.
pub open spec fn origin_args() -> Seq<Seq<char>> {
    seq!["remote"@, "get-url"@, "origin"@]
}

/// The arguments that push `HEAD` to `origin/main`.
pub open spec fn push_args() -> Seq<Seq<char>> {
    seq!["push"@, "origin"@, "HEAD:main"@]
}

/// Asks whether the directory is inside a working tree.
pub fn ask_repo() -> (r: Vec<String>)
    ensures
        texts(r@) == repo_args(),
{
    two("rev-parse", "--is-inside-work-tree")
}

/// Asks whether the working tree is clean.
pub fn ask_status() -> (r: Vec<String>)
    ensures
        texts(r@) == status_args(),
{
    two("status", "--porcelain")
}

/// Stages everything.
pub fn ask_add() -> (r: Vec<String>)
    ensures
        texts(r@) == add_args(),
{
    two("add", "-A")
}

/// Commits what is staged.
pub fn ask_commit(message: &str) -> (r: Vec<String>)
    ensures
        texts(r@) == commit_args(message@),
{
    three("commit", "-m", message)
}

/// Asks for the commit at `HEAD`.
pub fn ask_head() -> (r: Vec<String>)
    ensures
        texts(r@) == head_args(),
{
    two("rev-parse", "HEAD")
}

/// Asks for `origin`.
pub fn ask_origin() -> (r: Vec<String>)
    ensures
        texts(r@) == origin_args(),
{
    three("remote", "get-url", "origin")
}

/// Pushes `HEAD` to `origin/main`.
pub fn ask_push() -> (r: Vec<String>)
    ensures
        texts(r@) == push_args(),
{
    three("push", "origin", "HEAD:main")
}

// ---------------------------------------------------------------------------
// Runs in turn
// ---------------------------------------------------------------------------

/// The next turn of some work in `git`: a run with these arguments, or its outcome.
pub enum TurnView<T> {
    Run(Seq<Seq<char>>),
    Finished(T),
}

/// The next turn of committing everything.
pub open spec fn commit_turn(message: Seq<char>, runs: Seq<GitRun>) -> TurnView<
    Result<(), FaultView>,
> {
    if runs.len() == 0 {
        TurnView::Run(add_args())
    } else if added_of(runs[0]) is Err {
        TurnView::Finished(added_of(runs[0]))
    } else if runs.len() == 1 {
        TurnView::Run(commit_args(message))
    } else {
        TurnView::Finished(committed_of(runs[1]))
    }
}

/// The next turn of pushing.
pub open spec fn push_turn(runs: Seq<GitRun>) -> TurnView<Result<PushView, FaultView>> {
    if runs.len() == 0 {
        TurnView::Run(origin_args())
    } else {
        match origin_of(runs[0]) {
            Err(fault) => TurnView::Finished(Err(fault)),
            Ok(false) => TurnView::Finished(Ok(PushView::NoRemote)),
            Ok(true) => if runs.len() == 1 {
                TurnView::Run(push_args())
            } else {
                TurnView::Finished(pushed_of(runs[1]))
            },
        }
    }
}

/// Whether the working tree has no uncommitted changes and no untracked files.
pub fn is_clean(runs: &Vec<GitRun>) -> (r: GitNext<bool>)
    ensures
        runs@.len() == 0 ==> runs_next(r, status_args()),
        runs@.len() > 0 ==> finished(r, clean_of(runs@[0])),
{
    if runs.len() == 0 {
        return GitNext::Run(ask_status());
    }
    GitNext::Finished(read_clean(&runs[0]))
}

/// Commits everything in the working tree. The caller has made sure that there is
/// something to commit.
pub fn commit_all(message: &str, runs: &Vec<GitRun>) -> (r: GitNext<()>)
    ensures
        runs@.len() == 0 ==> runs_next(r, add_args()),
        runs@.len() > 0 ==> match added_of(runs@[0]) {
            Err(fault) => finished(r, Err(fault)),
            Ok(()) => if runs@.len() == 1 {
                runs_next(r, commit_args(message@))
            } else {
                finished(r, committed_of(runs@[1]))
            },
        },
        match r {
            GitNext::Run(args) => commit_turn(message@, runs@) == TurnView::<
                Result<(), FaultView>,
            >::Run(texts(args@)),
            GitNext::Finished(result) => commit_turn(message@, runs@) == TurnView::Finished(
                outcome(result),
            ),
        },
{
    if runs.len() == 0 {
        return GitNext::Run(ask_add());
    }
    match read_added(&runs[0]) {
        Err(fault) => {
            return GitNext::Finished(Err(fault));
        },
        Ok(()) => {},
    }
    if runs.len() == 1 {
        return GitNext::Run(ask_commit(message));
    }
    GitNext::Finished(read_committed(&runs[1]))
}

/// The commit at `HEAD`; `None` while the repository has no commits.
pub fn head_sha(runs: &Vec<GitRun>) -> (r: GitNext<Option<String>>)
    ensures
        runs@.len() == 0 ==> runs_next(r, head_args()),
        runs@.len() > 0 ==> (r matches GitNext::Finished(sha) && text_outcome(sha) == head_of(
            runs@[0],
        )),
{
    if runs.len() == 0 {
        return GitNext::Run(ask_head());
    }
    GitNext::Finished(read_head(&runs[0]))
}

/// All commits reachable from `HEAD`, newest first; `None` outside a repository and while
/// it has no commits.
pub fn known_commits(runs: &Vec<GitRun>) -> (r: GitNext<Option<Vec<String>>>)
    ensures
        runs@.len() == 0 ==> runs_next(r, seq!["rev-list"@, "HEAD"@]),
        runs@.len() > 0 ==> match commits_of(runs@[0]) {
            Ok(Some(ids)) => r matches GitNext::Finished(Ok(Some(commits))) && texts(commits@)
                == ids,
            Ok(None) => r matches GitNext::Finished(Ok(None)),
            Err(fault) => r matches GitNext::Finished(Err(f)) && f@ == fault,
        },
{
    if runs.len() == 0 {
        return GitNext::Run(two("rev-list", "HEAD"));
    }
    match &runs[0] {
        GitRun::NotStarted(why) => GitNext::Finished(
            Err(Fault::caused("failed to run `git rev-list HEAD`", why.as_str())),
        ),
        GitRun::Ran { success, stdout, stderr } => {
            if !*success {
                let text = lowercase(lossy(stderr.as_slice()).as_str());
                if says_no_history(text.as_str()) {
                    return GitNext::Finished(Ok(None));
                }
                return GitNext::Finished(Err(run_failed("`git rev-list HEAD` failed: ", stderr)));
            }
            GitNext::Finished(Ok(Some(commits_in(lossy(stdout.as_slice()).as_str()))))
        },
    }
}

/// Whether the directory is inside a `git` working tree.
pub fn in_repo(runs: &Vec<GitRun>) -> (r: GitNext<bool>)
    ensures
        runs@.len() == 0 ==> runs_next(r, repo_args()),
        runs@.len() > 0 ==> finished(r, repo_of(runs@[0])),
{
    if runs.len() == 0 {
        return GitNext::Run(ask_repo());
    }
    GitNext::Finished(read_repo(&runs[0]))
}

/// Whether an `origin` is configured.
pub fn has_origin(runs: &Vec<GitRun>) -> (r: GitNext<bool>)
    ensures
        runs@.len() == 0 ==> runs_next(r, origin_args()),
        runs@.len() > 0 ==> finished(r, origin_of(runs@[0])),
{
    if runs.len() == 0 {
        return GitNext::Run(ask_origin());
    }
    GitNext::Finished(read_origin(&runs[0]))
}

/// Pushes `HEAD` to `origin/main`, and tells the ways apart in which that can fail.
pub fn push_main(runs: &Vec<GitRun>) -> (r: GitNext<PushOutcome>)
    ensures
        runs@.len() == 0 ==> runs_next(r, origin_args()),
        runs@.len() > 0 ==> match origin_of(runs@[0]) {
            Err(fault) => r matches GitNext::Finished(Err(f)) && f@ == fault,
            Ok(false) => r matches GitNext::Finished(Ok(pushed)) && pushed@ == PushView::NoRemote,
            Ok(true) => if runs@.len() == 1 {
                runs_next(r, push_args())
            } else {
                r matches GitNext::Finished(pushed) && push_outcome(pushed) == pushed_of(runs@[1])
            },
        },
        match r {
            GitNext::Run(args) => push_turn(runs@) == TurnView::<
                Result<PushView, FaultView>,
            >::Run(texts(args@)),
            GitNext::Finished(result) => push_turn(runs@) == TurnView::Finished(
                push_outcome(result),
            ),
        },
{
    if runs.len() == 0 {
        return GitNext::Run(ask_origin());
    }
    match read_origin(&runs[0]) {
        Err(fault) => {
            return GitNext::Finished(Err(fault));
        },
        Ok(found) => {
            if !found {
                return GitNext::Finished(Ok(PushOutcome::NoRemote));
            }
        },
    }
    if runs.len() == 1 {
        return GitNext::Run(ask_push());
    }
    GitNext::Finished(read_pushed(&runs[1]))
}

// ---------------------------------------------------------------------------
// Laws
// ---------------------------------------------------------------------------

/// A tree is clean only where `git status --porcelain` lists nothing: any byte but a blank,
/// a tab or the end of a line is part of an entry, be it of a change or of a new file.
pub proof fn law_any_entry_makes_a_tree_dirty(run: GitRun, stdout: Vec<u8>, stderr: Vec<u8>, i: int)
    requires
        run == (GitRun::Ran { success: true, stdout, stderr }),
        0 <= i < stdout@.len(),
        stdout@[i] != 32 && stdout@[i] != 9 && stdout@[i] != 10 && stdout@[i] != 13,
    ensures
        clean_of(run) == Ok::<bool, FaultView>(false),
{
    assert(!blank_byte(stdout@[i]));
    assert(run->stdout@[i] == stdout@[i]);
    match clean_of(run) {
        Ok(clean) => {
            if clean {
                assert(blank_byte(run->stdout@[i]));
            }
        },
        Err(_) => {},
    }
}

/// Where `git status --porcelain` lists nothing, the tree is clean.
pub proof fn law_nothing_listed_is_clean(run: GitRun, stdout: Vec<u8>, stderr: Vec<u8>)
    requires
        run == (GitRun::Ran { success: true, stdout, stderr }),
        forall|i: int|
            0 <= i < stdout@.len() ==> #[trigger] stdout@[i] == 32 || stdout@[i] == 9 || stdout@[i]
                == 10 || stdout@[i] == 13,
    ensures
        clean_of(run) == Ok::<bool, FaultView>(true),
{
}

/// A run that could not be started answers nothing: every question fails, and says why.
pub proof fn law_git_that_does_not_start_answers_nothing(run: GitRun, why: String)
    requires
        run == GitRun::NotStarted(why),
    ensures
        clean_of(run) matches Err(f) && f.cause == Some(why@),
        added_of(run) matches Err(f) && f.cause == Some(why@),
        committed_of(run) matches Err(f) && f.cause == Some(why@),
        head_of(run) matches Err(f) && f.cause == Some(why@),
        commits_of(run) matches Err(f) && f.cause == Some(why@),
        repo_of(run) matches Err(f) && f.cause == Some(why@),
        origin_of(run) matches Err(f) && f.cause == Some(why@),
        pushed_of(run) matches Err(f) && f.cause == Some(why@),
{
}

/// A run that ended badly is never taken for one that went well: staging, committing and
/// asking for the state of the tree fail with what `git` wrote to standard error, and the
/// directory is no working tree and has no `origin`.
pub proof fn law_failed_runs_are_failures(run: GitRun, stdout: Vec<u8>, stderr: Vec<u8>)
    requires
        run == (GitRun::Ran { success: false, stdout, stderr }),
    ensures
        clean_of(run) matches Err(f) && f.cause is None && ends_with(
            f.message,
            trim(utf8_lossy(stderr@)),
        ) && starts_with(f.message, "`git status` failed: "@),
        added_of(run) matches Err(f) && f.cause is None && ends_with(
            f.message,
            trim(utf8_lossy(stderr@)),
        ) && starts_with(f.message, "`git add -A` failed: "@),
        committed_of(run) matches Err(f) && f.cause is None && ends_with(
            f.message,
            trim(utf8_lossy(stderr@)),
        ) && starts_with(f.message, "`git commit` failed: "@),
        repo_of(run) == Ok::<bool, FaultView>(false),
        origin_of(run) == Ok::<bool, FaultView>(false),
        pushed_of(run) != Ok::<PushView, FaultView>(PushView::Pushed),
        pushed_of(run) != Ok::<PushView, FaultView>(PushView::NoRemote),
        !(head_of(run) matches Ok(Some(_))),
        !(commits_of(run) matches Ok(Some(_))),
{
    let why = trim(utf8_lossy(stderr@));
    law_texts_contain_their_parts("`git status` failed: "@, why, Seq::empty());
    law_texts_contain_their_parts(Seq::empty(), "`git status` failed: "@, why);
    law_texts_contain_their_parts("`git add -A` failed: "@, why, Seq::empty());
    law_texts_contain_their_parts(Seq::empty(), "`git add -A` failed: "@, why);
    law_texts_contain_their_parts("`git commit` failed: "@, why, Seq::empty());
    law_texts_contain_their_parts(Seq::empty(), "`git commit` failed: "@, why);
}

/// A run that went well is never taken for one that failed, whatever it wrote to standard
/// error.
pub proof fn law_successful_runs_are_successes(run: GitRun, stdout: Vec<u8>, stderr: Vec<u8>)
    requires
        run == (GitRun::Ran { success: true, stdout, stderr }),
    ensures
        clean_of(run) is Ok,
        added_of(run) is Ok,
        committed_of(run) is Ok,
        repo_of(run) == Ok::<bool, FaultView>(true),
        origin_of(run) == Ok::<bool, FaultView>(stdout@.len() > 0),
        pushed_of(run) == Ok::<PushView, FaultView>(PushView::Pushed),
        head_of(run) is Ok,
        commits_of(run) matches Ok(Some(_)),
{
}

/// The commit at `HEAD` is the very text that `git` wrote, without the white space around
/// it.
pub proof fn law_head_is_what_git_wrote(
    run: GitRun,
    stdout: Vec<u8>,
    stderr: Vec<u8>,
    sha: Seq<char>,
    blank: Seq<char>,
)
    requires
        run == (GitRun::Ran { success: true, stdout, stderr }),
        utf8_lossy(stdout@) == sha + blank,
        forall|i: int| 0 <= i < blank.len() ==> white(#[trigger] blank[i]),
        sha.len() > 0 ==> !white(sha[0]) && !white(sha.last()),
    ensures
        head_of(run) == Ok::<Option<Seq<char>>, FaultView>(
            if sha.len() == 0 {
                None
            } else {
                Some(sha)
            },
        ),
{
    law_trimming_keeps_the_middle(Seq::empty(), sha, blank);
    assert(Seq::<char>::empty() + sha + blank =~= sha + blank);
}

/// A repository without commits has no commit at `HEAD`; no other failure is taken for that.
pub proof fn law_only_a_missing_commit_is_no_failure(run: GitRun, stdout: Vec<u8>, stderr: Vec<u8>)
    requires
        run == (GitRun::Ran { success: false, stdout, stderr }),
    ensures
        head_of(run) == Ok::<Option<Seq<char>>, FaultView>(None) <==> contains(
            utf8_lossy(stderr@),
            "unknown revision"@,
        ) || contains(utf8_lossy(stderr@), "ambiguous argument"@),
        head_of(run) is Err ==> starts_with(
            head_of(run)->Err_0.message,
            "`git rev-parse HEAD` failed: "@,
        ) && ends_with(head_of(run)->Err_0.message, trim(utf8_lossy(stderr@))),
{
    let why = trim(utf8_lossy(stderr@));
    law_texts_contain_their_parts("`git rev-parse HEAD` failed: "@, why, Seq::empty());
    law_texts_contain_their_parts(Seq::empty(), "`git rev-parse HEAD` failed: "@, why);
}

/// Commits are listed line by line: each line that is not blank names one, in its place.
pub proof fn law_each_line_names_a_commit(above: Seq<Seq<char>>, below: Seq<Seq<char>>, line: Seq<char>)
    ensures
        commit_ids(above + below) == commit_ids(above) + commit_ids(below),
        commit_ids(seq![line]) == if trim(line).len() == 0 {
            Seq::<Seq<char>>::empty()
        } else {
            seq![trim(line)]
        },
    decreases below.len(),
{
    assert(seq![line].drop_last() =~= Seq::<Seq<char>>::empty());
    assert(commit_ids(seq![line].drop_last()) =~= Seq::<Seq<char>>::empty());
    assert(Seq::<Seq<char>>::empty().push(trim(line)) =~= seq![trim(line)]);
    if below.len() == 0 {
        assert(above + below =~= above);
        assert(commit_ids(above) + Seq::<Seq<char>>::empty() =~= commit_ids(above));
    } else {
        let all = above + below;
        assert(all.last() == below.last());
        assert(all.drop_last() =~= above + below.drop_last());
        law_each_line_names_a_commit(above, below.drop_last(), line);
        assert(commit_ids(all) =~= commit_ids(above) + commit_ids(below));
    }
}

/// A push that failed is told apart by what `git` says, in this order: the remote has moved
/// on, it cannot be reached, it turns the user away. Whatever else it says is a failure. The
/// words of `git` go with it.
pub proof fn law_push_failures_are_told_apart(stderr: Seq<char>, lowered: Seq<char>)
    ensures
        ({
            let moved = contains(lowered, "rejected"@) || contains(lowered, "fetch first"@)
                || contains(lowered, "non-fast-forward"@);
            let away = contains(lowered, "could not resolve host"@) || contains(
                lowered,
                "network is unreachable"@,
            ) || contains(lowered, "connection refused"@) || contains(
                lowered,
                "connection timed out"@,
            ) || contains(lowered, "temporary failure in name resolution"@);
            let denied = contains(lowered, "permission denied"@) || contains(
                lowered,
                "authentication failed"@,
            ) || contains(lowered, "could not read from remote repository"@) || contains(
                lowered,
                "publickey"@,
            ) || contains(lowered, "403"@);
            let known = push_failure(stderr, lowered);
            &&& (known matches Some(PushView::NonFastForward(_))) <==> moved
            &&& (known matches Some(PushView::Network(_))) <==> !moved && away
            &&& (known matches Some(PushView::Auth(_))) <==> !moved && !away && denied
            &&& known is None <==> !moved && !away && !denied
            &&& known matches Some(PushView::NonFastForward(d)) ==> d == trim(stderr)
            &&& known matches Some(PushView::Network(d)) ==> d == trim(stderr)
            &&& known matches Some(PushView::Auth(d)) ==> d == trim(stderr)
        }),
{
    if contains(lowered, "updates were rejected"@) {
        let i = choose|i: int| #[trigger] occurs_at(lowered, "updates were rejected"@, i);
        reveal_strlit("updates were rejected");
        reveal_strlit("rejected");
        assert("updates were rejected"@.subrange(13, 21) =~= "rejected"@);
        assert(lowered.subrange(i + 13, i + 21) =~= lowered.subrange(i, i + 21).subrange(13, 21));
        assert(occurs_at(lowered, "rejected"@, i + 13));
    }
}

/// A commit carries the very message that it was given, as one argument.
pub proof fn law_commits_carry_their_message(message: Seq<char>, other: Seq<char>)
    ensures
        commit_args(message).len() == 3,
        commit_args(message)[0] == "commit"@,
        commit_args(message)[1] == "-m"@,
        commit_args(message)[2] == message,
        commit_args(message) == commit_args(other) <==> message == other,
{
    if commit_args(message) == commit_args(other) {
        assert(commit_args(message)[2] == commit_args(other)[2]);
    }
}

/// Everything is staged before anything is committed, and what could not be staged is not
/// committed; the message that is committed is the one that was asked for.
pub proof fn law_nothing_is_committed_unstaged(message: Seq<char>, runs: Seq<GitRun>)
    ensures
        runs.len() == 0 ==> commit_turn(message, runs) == TurnView::<Result<(), FaultView>>::Run(
            seq!["add"@, "-A"@],
        ),
        runs.len() > 0 && added_of(runs[0]) is Err ==> commit_turn(message, runs)
            == TurnView::Finished(added_of(runs[0])),
        runs.len() == 1 && added_of(runs[0]) is Ok ==> (commit_turn(message, runs) matches TurnView::Run(
            args,
        ) && args[0] == "commit"@ && args.last() == message),
        runs.len() > 1 && added_of(runs[0]) is Ok ==> commit_turn(message, runs)
            == TurnView::Finished(committed_of(runs[1])),
{
}

/// Nothing is pushed before it is known that there is a remote, and nothing at all where there
/// is none; what is pushed is the commit that is checked out, to the main branch of `origin`.
pub proof fn law_nothing_is_pushed_without_a_remote(runs: Seq<GitRun>)
    ensures
        runs.len() == 0 ==> (push_turn(runs) matches TurnView::Run(args) && args[0] == "remote"@
            && args.last() == "origin"@),
        runs.len() > 0 && origin_of(runs[0]) == Ok::<bool, FaultView>(false) ==> push_turn(runs)
            == TurnView::Finished(Ok::<PushView, FaultView>(PushView::NoRemote)),
        runs.len() > 0 && origin_of(runs[0]) is Err ==> push_turn(runs) is Finished,
        runs.len() == 1 && origin_of(runs[0]) == Ok::<bool, FaultView>(true) ==> push_turn(runs)
            == TurnView::<Result<PushView, FaultView>>::Run(seq!["push"@, "origin"@, "HEAD:main"@]),
        runs.len() > 1 && origin_of(runs[0]) == Ok::<bool, FaultView>(true) ==> push_turn(runs)
            == TurnView::Finished(pushed_of(runs[1])),
{
}

/// What is asked of `git`: a tree with new files is told from a clean one, everything is
/// staged, and the commit and the remote that are asked for are those that are pushed.
pub proof fn law_what_git_is_asked()
    ensures
        status_args() == seq!["status"@, "--porcelain"@],
        add_args() == seq!["add"@, "-A"@],
        head_args().last() == "HEAD"@,
        repo_args()[0] == head_args()[0],
        repo_args().last() == "--is-inside-work-tree"@,
        origin_args().last() == push_args()[1],
{
}

} // verus!
