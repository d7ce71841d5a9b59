//! A deploy, from the credentials to the link that opens the project in a browser.

use vstd::prelude::*;
use vstd::string::*;

use crate::config::ProjectConfig;
use crate::fault::{plain, Fault, FaultView};
use crate::git::{
    add_args, added_of, ask_add, ask_commit, ask_head, ask_origin, ask_push, ask_repo, ask_status,
    clean_of, commit_args, committed_of, head_args, head_of, law_any_entry_makes_a_tree_dirty,
    origin_args, origin_of, push_args,
    pushed_of, read_added, read_clean, read_committed, read_head, read_origin, read_pushed,
    read_repo, repo_args, repo_of, status_args, GitRun, PushOutcome, PushView,
};
use crate::http::{ApiError, ApiErrorIssue};
use crate::lines::{join, joined, law_joined_texts_hold_their_parts};
use crate::numbers::{decimal, decimal_text, signed_decimal, signed_text};
use crate::outside::{json_literal, json_string, random_id, random_uuid};
use crate::platform_client::{after_send, decision, sends, AfterSend, Sent, MAX_SENDS};
use crate::printer::{confirm_typed, confirm_yes, means_yes, notices, Notice, NoticeView, Printer};
use crate::scaffold::{title_from_slug, title_of_slug};
use crate::text::{
    contains, ends_with, law_texts_contain_their_parts, occurs_at, opt_str, opt_text, same,
    starts_with, texts, trim, trimmed,
};

verus! {

/// What was asked of a deploy.
#[derive(Debug)]
pub struct DeployArgs {
    pub environment: String,
    pub message: Option<String>,
    pub baseline: bool,
    pub create: bool,
    pub confirm_database_removal: bool,
    pub detach: bool,
    pub json: bool,
}

/// A deploy, as the user sees it.
pub struct DeployWorkflow<'a> {
    pub printer: &'a Printer,
}

impl<'a> DeployWorkflow<'a> {
    /// A deploy that is shown through `printer`.
    pub fn new(printer: &'a Printer) -> (r: Self)
        ensures
            r.printer == printer,
    {
        DeployWorkflow { printer }
    }
}

/// One progress line.
pub open spec fn says(text: Seq<char>) -> Seq<NoticeView> {
    seq![NoticeView::Progress(text)]
}

fn silence() -> (r: Vec<Notice>)
    ensures
        notices(r@) == Seq::<NoticeView>::empty(),
{
    let r: Vec<Notice> = Vec::new();
    proof {
        assert(notices(r@) =~= Seq::<NoticeView>::empty());
    }
    r
}

fn say(text: String) -> (r: Vec<Notice>)
    ensures
        notices(r@) == says(text@),
{
    let mut r: Vec<Notice> = Vec::new();
    r.push(Notice::Progress(text));
    proof {
        assert(notices(r@) =~= says(text@));
    }
    r
}

// ---------------------------------------------------------------------------
// Credentials
// ---------------------------------------------------------------------------

/// What to do about credentials.
#[derive(Debug)]
pub enum CredentialsStep {
    /// There are some.
    Ready,
    Refuse(String),
    /// Put this question, and come back with the answer.
    Ask(String),
    CreateGuest,
}

/// A [`CredentialsStep`], as characters.
pub enum CredentialsView {
    Ready,
    Refuse(Seq<char>),
    Ask(Seq<char>),
    CreateGuest,
}

impl View for CredentialsStep {
    type V = CredentialsView;

    open spec fn view(&self) -> CredentialsView {
        match self {
            CredentialsStep::Ready => CredentialsView::Ready,
            CredentialsStep::Refuse(m) => CredentialsView::Refuse(m@),
            CredentialsStep::Ask(q) => CredentialsView::Ask(q@),
            CredentialsStep::CreateGuest => CredentialsView::CreateGuest,
        }
    }
}

/// What is done about credentials.
pub open spec fn credentials_step(
    json: bool,
    terminal: bool,
    has_credentials: bool,
    answer: Option<Seq<char>>,
) -> CredentialsView {
    if has_credentials {
        CredentialsView::Ready
    } else if json || !terminal {
        CredentialsView::Refuse(
            "You are not logged in. Run `gbandit login` to sign in with Google, or `gbandit login --guest` to create a guest account."@,
        )
    } else {
        match answer {
            None => CredentialsView::Ask("No account found. Continue as guest? [Y/n] "@),
            Some(a) => if means_yes(a) {
                CredentialsView::CreateGuest
            } else {
                CredentialsView::Refuse(
                    "aborted: run `gbandit login` to sign in with Google, or `gbandit login --guest` for a guest account"@,
                )
            },
        }
    }
}

impl<'a> DeployWorkflow<'a> {
    /// With no credentials at all, offers to create a guest. A run that nobody watches never
    /// creates an account.
    pub fn ensure_credentials(
        &self,
        args: &DeployArgs,
        terminal: bool,
        has_credentials: bool,
        answer: Option<&str>,
    ) -> (r: CredentialsStep)
        ensures
            if has_credentials {
                r is Ready
            } else if args.json || !terminal {
                r matches CredentialsStep::Refuse(m) && m@
                    == "You are not logged in. Run `gbandit login` to sign in with Google, or `gbandit login --guest` to create a guest account."@
            } else {
                match opt_str(answer) {
                    None => r matches CredentialsStep::Ask(q) && q@
                        == "No account found. Continue as guest? [Y/n] "@,
                    Some(a) => if means_yes(a) {
                        r is CreateGuest
                    } else {
                        r matches CredentialsStep::Refuse(m) && m@
                            == "aborted: run `gbandit login` to sign in with Google, or `gbandit login --guest` for a guest account"@
                    },
                }
            },
            r@ == credentials_step(args.json, terminal, has_credentials, opt_str(answer)),
    {
        if has_credentials {
            return CredentialsStep::Ready;
        }
        if args.json || !terminal {
            return CredentialsStep::Refuse(
                "You are not logged in. Run `gbandit login` to sign in with Google, or `gbandit login --guest` to create a guest account.".to_string(),
            );
        }
        match answer {
            None => CredentialsStep::Ask("No account found. Continue as guest? [Y/n] ".to_string()),
            Some(a) => {
                if confirm_yes(a) {
                    CredentialsStep::CreateGuest
                } else {
                    CredentialsStep::Refuse(
                        "aborted: run `gbandit login` to sign in with Google, or `gbandit login --guest` for a guest account".to_string(),
                    )
                }
            },
        }
    }
}

// ---------------------------------------------------------------------------
// The project on the platform
// ---------------------------------------------------------------------------

/// What to do about a project that is not there.
#[derive(Debug)]
pub enum CreateStep {
    Refuse(String),
    /// Put this question, and come back with the answer.
    Ask(String),
    Answered(bool),
}

/// Guards against a mistyped project name, which must not become a new project unasked.
pub fn confirm_create(slug: &str, json: bool, terminal: bool, answer: Option<&str>) -> (r: CreateStep)
    ensures
        if json || !terminal {
            r matches CreateStep::Refuse(m) && m@ == "project '"@ + slug@
                + "' does not exist on the platform (or you are not a member of it). If gbandit.jsonc's \"project\" was edited, change it back; pass --create to create '"@
                + slug@ + "' on deploy"@
        } else {
            match opt_str(answer) {
                None => r matches CreateStep::Ask(q) && q@ == "Project '"@ + slug@
                    + "' does not exist on the platform (or you are not a member of it). If gbandit.jsonc's \"project\" was edited, answer no and change it back. Create it? [Y/n] "@,
                Some(a) => r matches CreateStep::Answered(yes) && yes == means_yes(a),
            }
        },
{
    if json || !terminal {
        return CreateStep::Refuse(
            "project '".to_string().concat(slug).concat(
                "' does not exist on the platform (or you are not a member of it). If gbandit.jsonc's \"project\" was edited, change it back; pass --create to create '",
            ).concat(slug).concat("' on deploy"),
        );
    }
    match answer {
        None => CreateStep::Ask(
            "Project '".to_string().concat(slug).concat(
                "' does not exist on the platform (or you are not a member of it). If gbandit.jsonc's \"project\" was edited, answer no and change it back. Create it? [Y/n] ",
            ),
        ),
        Some(a) => CreateStep::Answered(confirm_yes(a)),
    }
}

/// What to do about the project on the platform.
#[derive(Debug)]
pub enum ProjectStep {
    /// It is there, and its title is as it should be.
    Keep,
    /// Give it this title, and when that is done say so.
    Retitle { title: String, say: Vec<Notice> },
    Refuse(String),
    /// Put this question, and come back with the answer.
    Ask(String),
    /// Say this, and create it with this title.
    Create { title: String, say: Vec<Notice> },
}

/// The title that a configuration asks for.
pub open spec fn wanted_title(title: Option<Seq<char>>) -> Option<Seq<char>> {
    match title {
        Some(title) => Some(trim(title)),
        None => None,
    }
}

/// Whether a project is to be created.
pub open spec fn creates(create: bool, json: bool, terminal: bool, answer: Option<Seq<char>>) -> bool {
    create || (!json && terminal && (answer matches Some(a) && means_yes(a)))
}

/// The title that a new project gets.
pub open spec fn first_title(config: ProjectConfig) -> Seq<char> {
    match wanted_title(opt_text(config.title)) {
        Some(title) => title,
        None => title_of_slug(config.project@),
    }
}

/// A [`ProjectStep`], as characters.
pub enum ProjectView {
    Keep,
    Retitle { title: Seq<char>, say: Seq<NoticeView> },
    Refuse(Seq<char>),
    Ask(Seq<char>),
    Create { title: Seq<char>, say: Seq<NoticeView> },
}

impl View for ProjectStep {
    type V = ProjectView;

    open spec fn view(&self) -> ProjectView {
        match self {
            ProjectStep::Keep => ProjectView::Keep,
            ProjectStep::Retitle { title, say } => ProjectView::Retitle {
                title: title@,
                say: notices(say@),
            },
            ProjectStep::Refuse(m) => ProjectView::Refuse(m@),
            ProjectStep::Ask(q) => ProjectView::Ask(q@),
            ProjectStep::Create { title, say } => ProjectView::Create {
                title: title@,
                say: notices(say@),
            },
        }
    }
}

/// What is done about the project on the platform.
pub open spec fn project_step(
    config: ProjectConfig,
    create: bool,
    json: bool,
    terminal: bool,
    existing: Option<Seq<char>>,
    answer: Option<Seq<char>>,
) -> ProjectView {
    match existing {
        Some(current) => match wanted_title(opt_text(config.title)) {
            Some(wanted) => if wanted != current {
                ProjectView::Retitle {
                    title: wanted,
                    say: says("Updated project title to \""@ + wanted + "\"."@),
                }
            } else {
                ProjectView::Keep
            },
            None => ProjectView::Keep,
        },
        None => if creates(create, json, terminal, answer) {
            ProjectView::Create {
                title: first_title(config),
                say: says(
                    "Creating project '"@ + config.project@ + "' (title: \""@ + first_title(config)
                        + "\") on the platform..."@,
                ),
            }
        } else if json || !terminal {
            ProjectView::Refuse(
                "project '"@ + config.project@
                    + "' does not exist on the platform (or you are not a member of it). If gbandit.jsonc's \"project\" was edited, change it back; pass --create to create '"@
                    + config.project@ + "' on deploy"@,
            )
        } else if answer is None {
            ProjectView::Ask(
                "Project '"@ + config.project@
                    + "' does not exist on the platform (or you are not a member of it). If gbandit.jsonc's \"project\" was edited, answer no and change it back. Create it? [Y/n] "@,
            )
        } else {
            ProjectView::Refuse("aborted: project '"@ + config.project@ + "' was not created"@)
        },
    }
}

impl<'a> DeployWorkflow<'a> {
    /// Creates the project where it is not there, once that is confirmed, and keeps its
    /// title in step with the configuration's, where that has one. `existing` is the title
    /// that the project has on the platform.
    pub fn ensure_project(
        &self,
        config: &ProjectConfig,
        create: bool,
        json: bool,
        terminal: bool,
        existing: Option<&str>,
        answer: Option<&str>,
    ) -> (r: ProjectStep)
        ensures
            match opt_str(existing) {
                Some(current) => match wanted_title(opt_text(config.title)) {
                    Some(wanted) => if wanted != current {
                        r matches ProjectStep::Retitle { title, say } && title@ == wanted
                            && notices(say@) == says(
                            "Updated project title to \""@ + wanted + "\"."@,
                        )
                    } else {
                        r is Keep
                    },
                    None => r is Keep,
                },
                None => if creates(create, json, terminal, opt_str(answer)) {
                    r matches ProjectStep::Create { title, say } && title@ == first_title(*config)
                        && notices(say@) == says(
                        "Creating project '"@ + config.project@ + "' (title: \""@ + first_title(
                            *config,
                        ) + "\") on the platform..."@,
                    )
                } else if json || !terminal {
                    r matches ProjectStep::Refuse(m) && m@ == "project '"@ + config.project@
                        + "' does not exist on the platform (or you are not a member of it). If gbandit.jsonc's \"project\" was edited, change it back; pass --create to create '"@
                        + config.project@ + "' on deploy"@
                } else if answer is None {
                    r matches ProjectStep::Ask(q) && q@ == "Project '"@ + config.project@
                        + "' does not exist on the platform (or you are not a member of it). If gbandit.jsonc's \"project\" was edited, answer no and change it back. Create it? [Y/n] "@
                } else {
                    r matches ProjectStep::Refuse(m) && m@ == "aborted: project '"@
                        + config.project@ + "' was not created"@
                },
            },
            r@ == project_step(
                *config,
                create,
                json,
                terminal,
                opt_str(existing),
                opt_str(answer),
            ),
    {
        let wanted = match &config.title {
            Some(title) => Some(trimmed(title.as_str())),
            None => None,
        };
        let slug = config.project.as_str();
        match existing {
            Some(current) => match wanted {
                Some(title) => {
                    if same(title.as_str(), current) {
                        return ProjectStep::Keep;
                    }
                    let text = "Updated project title to \"".to_string().concat(
                        title.as_str(),
                    ).concat("\".");
                    ProjectStep::Retitle { title, say: say(text) }
                },
                None => ProjectStep::Keep,
            },
            None => {
                if !create {
                    match confirm_create(slug, json, terminal, answer) {
                        CreateStep::Refuse(m) => {
                            return ProjectStep::Refuse(m);
                        },
                        CreateStep::Ask(q) => {
                            return ProjectStep::Ask(q);
                        },
                        CreateStep::Answered(yes) => {
                            if !yes {
                                return ProjectStep::Refuse(
                                    "aborted: project '".to_string().concat(slug).concat(
                                        "' was not created",
                                    ),
                                );
                            }
                        },
                    }
                }
                let title = match wanted {
                    Some(title) => title,
                    None => title_from_slug(slug),
                };
                let text = "Creating project '".to_string().concat(slug).concat(
                    "' (title: \"",
                ).concat(title.as_str()).concat("\") on the platform...");
                ProjectStep::Create { title, say: say(text) }
            },
        }
    }
}

/// What is said of a project that was created.
pub fn project_created(slug: &str) -> (r: Vec<Notice>)
    ensures
        notices(r@) == says("Project '"@ + slug@ + "' created."@),
{
    say("Project '".to_string().concat(slug).concat("' created."))
}

// ---------------------------------------------------------------------------
// The checkpoint
// ---------------------------------------------------------------------------

/// What to do next in `git`, and what to say before it.
#[derive(Debug)]
pub enum GitStep<T> {
    /// Say this, run `git` with these arguments, and come back with one run more.
    Run { say: Vec<Notice>, args: Vec<String> },
    /// Say this; the work is over.
    Finished { say: Vec<Notice>, result: Result<T, Fault> },
}

/// A [`GitStep`], as characters.
pub enum GitStepView<T> {
    Run { say: Seq<NoticeView>, args: Seq<Seq<char>> },
    Finished { say: Seq<NoticeView>, result: Result<T, FaultView> },
}

/// A run without a word.
pub open spec fn run<T>(args: Seq<Seq<char>>) -> GitStepView<T> {
    GitStepView::Run { say: Seq::empty(), args }
}

/// The end without a word.
pub open spec fn over<T>(result: Result<T, FaultView>) -> GitStepView<T> {
    GitStepView::Finished { say: Seq::empty(), result }
}

/// A checkpoint step, as characters: it comes to the commit that is deployed, if any.
pub open spec fn checkpoint_view(step: GitStep<Option<String>>) -> GitStepView<Option<Seq<char>>> {
    match step {
        GitStep::Run { say, args } => GitStepView::Run {
            say: notices(say@),
            args: texts(args@),
        },
        GitStep::Finished { say, result } => GitStepView::Finished {
            say: notices(say@),
            result: match result {
                Ok(sha) => Ok(opt_text(sha)),
                Err(fault) => Err(fault@),
            },
        },
    }
}

/// A push step, as characters.
pub open spec fn push_view(step: GitStep<()>) -> GitStepView<()> {
    match step {
        GitStep::Run { say, args } => GitStepView::Run {
            say: notices(say@),
            args: texts(args@),
        },
        GitStep::Finished { say, result } => GitStepView::Finished {
            say: notices(say@),
            result: match result {
                Ok(()) => Ok(()),
                Err(fault) => Err(fault@),
            },
        },
    }
}

/// The message of a checkpoint's commit.
pub open spec fn commit_message(environment: Seq<char>, message: Option<Seq<char>>) -> Seq<char> {
    match message {
        Some(message) => message,
        None => "gbandit deploy "@ + environment,
    }
}

/// The steps behind the commit that a checkpoint may make, where `runs` begins with the
/// question for the commit at `HEAD`.
pub open spec fn read_back(kept: bool, runs: Seq<GitRun>) -> GitStepView<Option<Seq<char>>> {
    if runs.len() == 0 {
        run(head_args())
    } else {
        match head_of(runs[0]) {
            Err(fault) => over(Err(fault)),
            Ok(sha) => if kept {
                over(Ok(sha))
            } else {
                GitStepView::Finished {
                    say: says(
                        "Deploying uncommitted local changes. Linked remote will not be pushed; the Gbandit Agent will not see these changes unless you commit/push/sync them."@,
                    ),
                    result: Ok(None),
                }
            },
        }
    }
}

/// The steps that commit a dirty tree, where `runs` begins with the staging.
pub open spec fn commit_first(message: Seq<char>, runs: Seq<GitRun>) -> GitStepView<
    Option<Seq<char>>,
> {
    if runs.len() == 0 {
        GitStepView::Run { say: says("Auto-committing working tree..."@), args: add_args() }
    } else {
        match added_of(runs[0]) {
            Err(fault) => over(Err(fault)),
            Ok(()) => if runs.len() == 1 {
                run(commit_args(message))
            } else {
                match committed_of(runs[1]) {
                    Err(fault) => over(Err(fault)),
                    Ok(()) => read_back(true, runs.skip(2)),
                }
            },
        }
    }
}

/// The steps of a checkpoint. A dirty tree is committed where that was asked for, and is
/// deployed without a commit where it was not; a clean tree is deployed as the commit that
/// it is.
pub open spec fn checkpoint(auto_commit: bool, message: Seq<char>, runs: Seq<GitRun>) -> GitStepView<
    Option<Seq<char>>,
> {
    if runs.len() == 0 {
        run(repo_args())
    } else {
        match repo_of(runs[0]) {
            Err(fault) => over(Err(fault)),
            Ok(false) => if auto_commit {
                over(
                    Err(
                        plain(
                            "deploy checkpoints require a git repository and this directory is not one — run `git init`, or set local_dev.auto_commit to false in gbandit.jsonc to deploy without checkpoints"@,
                        ),
                    ),
                )
            } else {
                GitStepView::Finished {
                    say: says("Skipping deploy checkpoint: not a git repository."@),
                    result: Ok(None),
                }
            },
            Ok(true) => if runs.len() == 1 {
                run(status_args())
            } else {
                match clean_of(runs[1]) {
                    Err(fault) => if auto_commit {
                        over(Err(fault))
                    } else {
                        GitStepView::Finished {
                            say: says("Skipping deploy checkpoint: "@ + fault.message),
                            result: Ok(None),
                        }
                    },
                    Ok(clean) => if auto_commit && !clean {
                        commit_first(message, runs.skip(2))
                    } else {
                        read_back(clean, runs.skip(2))
                    },
                }
            },
        }
    }
}

fn checkpoint_run(say: Vec<Notice>, args: Vec<String>) -> (r: GitStep<Option<String>>)
    ensures
        checkpoint_view(r) == (GitStepView::<Option<Seq<char>>>::Run {
            say: notices(say@),
            args: texts(args@),
        }),
{
    GitStep::Run { say, args }
}

/// Reads the commit at `HEAD` back, behind the first `from` runs.
fn read_commit(kept: bool, runs: &Vec<GitRun>, from: usize) -> (r: GitStep<Option<String>>)
    requires
        from <= runs@.len(),
    ensures
        checkpoint_view(r) == read_back(kept, runs@.skip(from as int)),
{
    if runs.len() == from {
        return checkpoint_run(silence(), ask_head());
    }
    proof {
        assert(runs@.skip(from as int)[0] == runs@[from as int]);
    }
    match read_head(&runs[from]) {
        Err(fault) => GitStep::Finished { say: silence(), result: Err(fault) },
        Ok(sha) => {
            if kept {
                return GitStep::Finished { say: silence(), result: Ok(sha) };
            }
            let text = "Deploying uncommitted local changes. Linked remote will not be pushed; the Gbandit Agent will not see these changes unless you commit/push/sync them.".to_string();
            GitStep::Finished { say: say(text), result: Ok(None) }
        },
    }
}

/// Commits a dirty tree, behind the first two runs.
fn commit_tree(message: &str, runs: &Vec<GitRun>) -> (r: GitStep<Option<String>>)
    requires
        2 <= runs@.len(),
    ensures
        checkpoint_view(r) == commit_first(message@, runs@.skip(2)),
{
    if runs.len() == 2 {
        return checkpoint_run(say("Auto-committing working tree...".to_string()), ask_add());
    }
    proof {
        assert(runs@.skip(2)[0] == runs@[2]);
    }
    match read_added(&runs[2]) {
        Err(fault) => {
            return GitStep::Finished { say: silence(), result: Err(fault) };
        },
        Ok(()) => {},
    }
    if runs.len() == 3 {
        return checkpoint_run(silence(), ask_commit(message));
    }
    proof {
        assert(runs@.skip(2)[1] == runs@[3]);
        assert(runs@.skip(2).skip(2) =~= runs@.skip(4));
    }
    match read_committed(&runs[3]) {
        Err(fault) => GitStep::Finished { say: silence(), result: Err(fault) },
        Ok(()) => read_commit(true, runs, 4),
    }
}

/// The commit that a deploy goes out as; none where it goes out without one. `runs` are the
/// `git` runs made for it so far.
pub fn prepare_checkpoint(
    auto_commit: bool,
    environment: &str,
    message: Option<&str>,
    runs: &Vec<GitRun>,
) -> (r: GitStep<Option<String>>)
    ensures
        checkpoint_view(r) == checkpoint(
            auto_commit,
            commit_message(environment@, opt_str(message)),
            runs@,
        ),
{
    let commit_message = match message {
        Some(message) => message.to_string(),
        None => "gbandit deploy ".to_string().concat(environment),
    };
    if runs.len() == 0 {
        return checkpoint_run(silence(), ask_repo());
    }
    match read_repo(&runs[0]) {
        Err(fault) => {
            return GitStep::Finished { say: silence(), result: Err(fault) };
        },
        Ok(inside) => {
            if !inside {
                if !auto_commit {
                    let text = "Skipping deploy checkpoint: not a git repository.".to_string();
                    return GitStep::Finished { say: say(text), result: Ok(None) };
                }
                let text = "deploy checkpoints require a git repository and this directory is not one — run `git init`, or set local_dev.auto_commit to false in gbandit.jsonc to deploy without checkpoints".to_string();
                return GitStep::Finished { say: silence(), result: Err(Fault::plain(text)) };
            }
        },
    }
    if runs.len() == 1 {
        return checkpoint_run(silence(), ask_status());
    }
    match read_clean(&runs[1]) {
        Err(fault) => {
            if auto_commit {
                return GitStep::Finished { say: silence(), result: Err(fault) };
            }
            let text = "Skipping deploy checkpoint: ".to_string().concat(fault.message.as_str());
            GitStep::Finished { say: say(text), result: Ok(None) }
        },
        Ok(clean) => {
            if auto_commit && !clean {
                commit_tree(commit_message.as_str(), runs)
            } else {
                read_commit(clean, runs, 2)
            }
        },
    }
}

/// Whether a run changes the repository or its remote.
pub open spec fn touches(args: Seq<Seq<char>>) -> bool {
    args.len() > 0 && (args[0] == "add"@ || args[0] == "commit"@ || args[0] == "push"@)
}

proof fn lemma_reading_runs()
    ensures
        !touches(repo_args()),
        !touches(status_args()),
        !touches(head_args()),
        !touches(origin_args()),
{
    reveal_strlit("add");
    reveal_strlit("commit");
    reveal_strlit("push");
    reveal_strlit("rev-parse");
    reveal_strlit("status");
    reveal_strlit("remote");
    assert("rev-parse"@.len() == 9);
    assert("status"@[0] == 's');
    assert("remote"@[0] == 'r');
    assert("commit"@[0] == 'c');
    assert("push"@.len() == 4);
    assert("add"@.len() == 3);
}

/// A deploy that was not asked to commit never stages or commits anything: whatever `git`
/// says, its checkpoint only looks.
pub proof fn law_no_commit_unasked(message: Seq<char>, runs: Seq<GitRun>)
    ensures
        match checkpoint(false, message, runs) {
            GitStepView::Run { args, .. } => !touches(args),
            GitStepView::Finished { .. } => true,
        },
{
    lemma_reading_runs();
}

/// A clean tree is deployed as the commit that it is, and gets no empty commit, whether or
/// not the deploy was asked to commit.
pub proof fn law_clean_trees_are_their_commit(auto_commit: bool, message: Seq<char>, runs: Seq<GitRun>)
    requires
        runs.len() == 3,
        repo_of(runs[0]) == Ok::<bool, FaultView>(true),
        clean_of(runs[1]) == Ok::<bool, FaultView>(true),
        head_of(runs[2]) is Ok,
    ensures
        checkpoint(auto_commit, message, runs) == over(head_of(runs[2])),
{
    assert(runs.skip(2)[0] == runs[2]);
}

/// A dirty tree that is committed first is deployed as the commit that was made.
pub proof fn law_dirty_trees_are_committed(message: Seq<char>, runs: Seq<GitRun>)
    requires
        runs.len() == 5,
        repo_of(runs[0]) == Ok::<bool, FaultView>(true),
        clean_of(runs[1]) == Ok::<bool, FaultView>(false),
        added_of(runs[2]) is Ok,
        committed_of(runs[3]) is Ok,
        head_of(runs[4]) is Ok,
    ensures
        checkpoint(true, message, runs) == over(head_of(runs[4])),
        checkpoint(true, message, runs.take(3)) == run::<Option<Seq<char>>>(commit_args(message)),
{
    assert(runs.skip(2)[0] == runs[2]);
    assert(runs.skip(2)[1] == runs[3]);
    assert(runs.skip(2).skip(2)[0] == runs[4]);
    assert(runs.take(3).skip(2)[0] == runs[2]);
}

/// A dirty tree that is not to be committed is deployed without a commit.
pub proof fn law_dirty_trees_have_no_checkpoint(message: Seq<char>, runs: Seq<GitRun>)
    requires
        runs.len() == 3,
        repo_of(runs[0]) == Ok::<bool, FaultView>(true),
        clean_of(runs[1]) == Ok::<bool, FaultView>(false),
        head_of(runs[2]) is Ok,
    ensures
        checkpoint(false, message, runs) matches GitStepView::Finished { result, .. } && result
            == Ok::<Option<Seq<char>>, FaultView>(None),
{
    assert(runs.skip(2)[0] == runs[2]);
}

// ---------------------------------------------------------------------------
// The push
// ---------------------------------------------------------------------------

/// What is said of a push, and whether the deploy goes on.
pub open spec fn pushed(view: PushView) -> GitStepView<()> {
    match view {
        PushView::Pushed => GitStepView::Finished {
            say: says("Push succeeded."@),
            result: Ok(()),
        },
        PushView::NoRemote => over(Ok(())),
        PushView::NonFastForward(detail) => over(
            Err(
                plain(
                    "push rejected (non-fast-forward) — pull from the linked remote and retry. If you're in Pi, ask it to use the pull_remote skill. From a laptop, run `git pull --rebase`. Aborting deploy.\n\n"@
                        + detail,
                ),
            ),
        ),
        PushView::Network(detail) => over(
            Err(
                plain(
                    "push failed — network unreachable. Aborting deploy so the Checkpoint stays in sync with the remote.\n\n"@
                        + detail,
                ),
            ),
        ),
        PushView::Auth(detail) => over(
            Err(
                plain(
                    "push failed — authentication rejected. Looks like the Deploy Key isn't installed any more (or your laptop's git credentials are wrong). Reconnect from the Settings page or fix your local credentials, then retry. Aborting deploy.\n\n"@
                        + detail,
                ),
            ),
        ),
    }
}

/// The steps of the push that a deploy waits for. It is asked twice for `origin`: once
/// before anything is said, and once by the push itself.
pub open spec fn push_steps(runs: Seq<GitRun>) -> GitStepView<()> {
    if runs.len() == 0 {
        run(origin_args())
    } else {
        match origin_of(runs[0]) {
            Err(fault) => over(Err(fault)),
            Ok(false) => over(Ok(())),
            Ok(true) => if runs.len() == 1 {
                GitStepView::Run { say: says("Pushing to linked remote..."@), args: origin_args() }
            } else {
                match origin_of(runs[1]) {
                    Err(fault) => over(Err(fault)),
                    Ok(false) => over(Ok(())),
                    Ok(true) => if runs.len() == 2 {
                        run(push_args())
                    } else {
                        match pushed_of(runs[2]) {
                            Err(fault) => over(Err(fault)),
                            Ok(view) => pushed(view),
                        }
                    },
                }
            },
        }
    }
}

fn push_run(say: Vec<Notice>, args: Vec<String>) -> (r: GitStep<()>)
    ensures
        push_view(r) == (GitStepView::<()>::Run { say: notices(say@), args: texts(args@) }),
{
    GitStep::Run { say, args }
}

fn push_over(result: Result<(), Fault>) -> (r: GitStep<()>)
    ensures
        push_view(r) == over(
            match result {
                Ok(()) => Ok::<(), FaultView>(()),
                Err(fault) => Err(fault@),
            },
        ),
{
    GitStep::Finished { say: silence(), result }
}

/// What is said of a push, and whether the deploy goes on.
fn after_push(outcome: PushOutcome) -> (r: GitStep<()>)
    ensures
        push_view(r) == pushed(outcome@),
{
    match outcome {
        PushOutcome::Pushed => GitStep::Finished {
            say: say("Push succeeded.".to_string()),
            result: Ok(()),
        },
        PushOutcome::NoRemote => push_over(Ok(())),
        PushOutcome::NonFastForward { detail } => push_over(
            Err(
                Fault::plain(
                    "push rejected (non-fast-forward) — pull from the linked remote and retry. If you're in Pi, ask it to use the pull_remote skill. From a laptop, run `git pull --rebase`. Aborting deploy.\n\n".to_string().concat(
                        detail.as_str(),
                    ),
                ),
            ),
        ),
        PushOutcome::Network { detail } => push_over(
            Err(
                Fault::plain(
                    "push failed — network unreachable. Aborting deploy so the Checkpoint stays in sync with the remote.\n\n".to_string().concat(
                        detail.as_str(),
                    ),
                ),
            ),
        ),
        PushOutcome::Auth { detail } => push_over(
            Err(
                Fault::plain(
                    "push failed — authentication rejected. Looks like the Deploy Key isn't installed any more (or your laptop's git credentials are wrong). Reconnect from the Settings page or fix your local credentials, then retry. Aborting deploy.\n\n".to_string().concat(
                        detail.as_str(),
                    ),
                ),
            ),
        ),
    }
}

/// Pushes to the linked remote, and ends the deploy where that fails. `runs` are the `git`
/// runs made for it so far.
pub fn push_or_abort(runs: &Vec<GitRun>) -> (r: GitStep<()>)
    ensures
        push_view(r) == push_steps(runs@),
{
    if runs.len() == 0 {
        return push_run(silence(), ask_origin());
    }
    match read_origin(&runs[0]) {
        Err(fault) => {
            return push_over(Err(fault));
        },
        Ok(found) => {
            if !found {
                return push_over(Ok(()));
            }
        },
    }
    if runs.len() == 1 {
        return push_run(say("Pushing to linked remote...".to_string()), ask_origin());
    }
    match read_origin(&runs[1]) {
        Err(fault) => {
            return push_over(Err(fault));
        },
        Ok(found) => {
            if !found {
                return push_over(Ok(()));
            }
        },
    }
    if runs.len() == 2 {
        return push_run(silence(), ask_push());
    }
    match read_pushed(&runs[2]) {
        Err(fault) => push_over(Err(fault)),
        Ok(outcome) => after_push(outcome),
    }
}

/// The steps between the checkpoint and the upload. Without a commit there is nothing
/// right to push; without `auto_commit` the user keeps the remote in step.
pub open spec fn gate_steps(auto_commit: bool, committed: bool, runs: Seq<GitRun>) -> GitStepView<()> {
    if !committed {
        over(Ok(()))
    } else if auto_commit {
        push_steps(runs)
    } else if runs.len() == 0 {
        run(origin_args())
    } else {
        match origin_of(runs[0]) {
            Err(fault) => over(Err(fault)),
            Ok(false) => over(Ok(())),
            Ok(true) => GitStepView::Finished {
                say: says(
                    "Skipping push to linked remote (auto_commit=false). Push when you want this commit on the remote."@,
                ),
                result: Ok(()),
            },
        }
    }
}

/// The steps between the checkpoint and the upload. `runs` are the `git` runs made for it
/// so far.
pub fn push_gate(auto_commit: bool, committed: bool, runs: &Vec<GitRun>) -> (r: GitStep<()>)
    ensures
        push_view(r) == gate_steps(auto_commit, committed, runs@),
{
    if !committed {
        return push_over(Ok(()));
    }
    if auto_commit {
        return push_or_abort(runs);
    }
    if runs.len() == 0 {
        return push_run(silence(), ask_origin());
    }
    match read_origin(&runs[0]) {
        Err(fault) => push_over(Err(fault)),
        Ok(found) => {
            if !found {
                return push_over(Ok(()));
            }
            let text = "Skipping push to linked remote (auto_commit=false). Push when you want this commit on the remote.".to_string();
            GitStep::Finished { say: say(text), result: Ok(()) }
        },
    }
}

/// A deploy that was not asked to commit never pushes, whatever `git` says.
pub proof fn law_no_push_unasked(committed: bool, runs: Seq<GitRun>)
    ensures
        match gate_steps(false, committed, runs) {
            GitStepView::Run { args, .. } => !touches(args),
            GitStepView::Finished { .. } => true,
        },
{
    lemma_reading_runs();
}

/// A deploy with a linked remote goes on only behind a push that succeeded: where the
/// remote is there and the push came to anything else, the deploy ends.
pub proof fn law_failed_pushes_end_the_deploy(runs: Seq<GitRun>)
    requires
        runs.len() == 3,
        origin_of(runs[0]) == Ok::<bool, FaultView>(true),
        origin_of(runs[1]) == Ok::<bool, FaultView>(true),
    ensures
        push_steps(runs) matches GitStepView::Finished { result, .. } && (result is Ok <==> pushed_of(
            runs[2],
        ) == Ok::<PushView, FaultView>(PushView::Pushed)),
{
    match runs[2] {
        GitRun::NotStarted(_) => {},
        GitRun::Ran { .. } => {},
    }
}

// ---------------------------------------------------------------------------
// The upload
// ---------------------------------------------------------------------------

/// The text fields of an upload, in order.
pub open spec fn form_fields(
    submission_id: Seq<char>,
    commit_sha: Option<Seq<char>>,
    deploy_message: Option<Seq<char>>,
    confirm_database_removal: bool,
) -> Seq<(Seq<char>, Seq<char>)> {
    let sha = match commit_sha {
        Some(sha) => seq![("commit_sha"@, sha)],
        None => Seq::empty(),
    };
    let message = match deploy_message {
        Some(message) => seq![("deploy_message"@, message)],
        None => Seq::empty(),
    };
    let confirm = if confirm_database_removal {
        seq![("confirm_database_removal"@, "true"@)]
    } else {
        Seq::empty()
    };
    seq![("submission_id"@, submission_id)] + sha + message + confirm
}

/// Fields, as characters.
pub open spec fn field_texts(fields: Seq<(String, String)>) -> Seq<(Seq<char>, Seq<char>)> {
    fields.map_values(|f: (String, String)| (f.0@, f.1@))
}

/// The text fields of an upload, in order.
pub fn fields_of(
    submission_id: &str,
    commit_sha: Option<&str>,
    deploy_message: Option<&str>,
    confirm_database_removal: bool,
) -> (r: Vec<(String, String)>)
    ensures
        field_texts(r@) == form_fields(
            submission_id@,
            opt_str(commit_sha),
            opt_str(deploy_message),
            confirm_database_removal,
        ),
{
    let mut r: Vec<(String, String)> = Vec::new();
    r.push(("submission_id".to_string(), submission_id.to_string()));
    match commit_sha {
        Some(sha) => {
            r.push(("commit_sha".to_string(), sha.to_string()));
        },
        None => {},
    }
    match deploy_message {
        Some(message) => {
            r.push(("deploy_message".to_string(), message.to_string()));
        },
        None => {},
    }
    if confirm_database_removal {
        r.push(("confirm_database_removal".to_string(), "true".to_string()));
    }
    proof {
        assert(field_texts(r@) =~= form_fields(
            submission_id@,
            opt_str(commit_sha),
            opt_str(deploy_message),
            confirm_database_removal,
        ));
    }
    r
}

/// The form of an upload names the submission, and beside it the commit, the message and
/// the confirmation exactly where there are any.
pub proof fn law_form_says_what_it_was_given(
    submission_id: Seq<char>,
    commit_sha: Option<Seq<char>>,
    deploy_message: Option<Seq<char>>,
    confirm_database_removal: bool,
    value: Seq<char>,
)
    ensures
        ({
            let fields = form_fields(
                submission_id,
                commit_sha,
                deploy_message,
                confirm_database_removal,
            );
            &&& fields.contains(("submission_id"@, value)) <==> value == submission_id
            &&& fields.contains(("commit_sha"@, value)) <==> commit_sha == Some(value)
            &&& fields.contains(("deploy_message"@, value)) <==> deploy_message == Some(value)
            &&& fields.contains(("confirm_database_removal"@, value)) <==> confirm_database_removal
                && value == "true"@
        }),
{
    reveal_strlit("submission_id");
    reveal_strlit("commit_sha");
    reveal_strlit("deploy_message");
    reveal_strlit("confirm_database_removal");
    assert("submission_id"@.len() == 13 && "commit_sha"@.len() == 10 && "deploy_message"@.len()
        == 14 && "confirm_database_removal"@.len() == 24);
    let fields = form_fields(submission_id, commit_sha, deploy_message, confirm_database_removal);
    let message_at = 1 + if commit_sha is Some {
        1int
    } else {
        0
    };
    let confirm_at = message_at + if deploy_message is Some {
        1int
    } else {
        0
    };
    assert(fields[0] == ("submission_id"@, submission_id));
    if commit_sha is Some {
        assert(fields[1] == ("commit_sha"@, commit_sha->0));
    }
    if deploy_message is Some {
        assert(fields[message_at] == ("deploy_message"@, deploy_message->0));
    }
    if confirm_database_removal {
        assert(fields[confirm_at] == ("confirm_database_removal"@, "true"@));
    }
}

/// An upload: the form that it sends, and how often it was sent in vain.
#[derive(Debug)]
pub struct Upload<'a> {
    fields: Vec<(String, String)>,
    bundle: &'a [u8],
    failures: u32,
}

/// The form of an upload, as characters and bytes.
pub struct FormView {
    pub fields: Seq<(Seq<char>, Seq<char>)>,
    pub bundle: Seq<u8>,
}

/// An [`Upload`], as characters and bytes.
pub struct UploadView {
    pub form: FormView,
    pub failures: int,
}

impl<'a> View for Upload<'a> {
    type V = UploadView;

    closed spec fn view(&self) -> UploadView {
        UploadView {
            form: FormView { fields: field_texts(self.fields@), bundle: self.bundle@ },
            failures: self.failures as int,
        }
    }
}

/// An upload after a send that came to `sent`.
pub open spec fn after_sending(upload: UploadView, sent: Sent) -> UploadView {
    if decision(upload.failures, sent) is SendAgain {
        UploadView { form: upload.form, failures: upload.failures + 1 }
    } else {
        upload
    }
}

/// The forms that an upload sends when its sends come to `outcomes`.
pub open spec fn forms_sent(upload: UploadView, outcomes: Seq<Sent>) -> Seq<FormView>
    decreases outcomes.len(),
{
    if outcomes.len() == 0 {
        Seq::empty()
    } else if decision(upload.failures, outcomes[0]) is SendAgain {
        seq![upload.form] + forms_sent(after_sending(upload, outcomes[0]), outcomes.skip(1))
    } else {
        seq![upload.form]
    }
}

/// However its sends come out, an upload sends one and the same form each time, and so one
/// submission id, by which the platform knows a repeated submission.
pub proof fn law_every_send_carries_the_same_form(upload: UploadView, outcomes: Seq<Sent>)
    ensures
        forms_sent(upload, outcomes).len() == sends(upload.failures, outcomes),
        forall|i: int|
            0 <= i < forms_sent(upload, outcomes).len() ==> #[trigger] forms_sent(
                upload,
                outcomes,
            )[i] == upload.form,
    decreases outcomes.len(),
{
    if outcomes.len() > 0 && decision(upload.failures, outcomes[0]) is SendAgain {
        law_every_send_carries_the_same_form(after_sending(upload, outcomes[0]), outcomes.skip(1));
    }
}

impl<'a> Upload<'a> {
    #[verifier::type_invariant]
    closed spec fn may_be_sent(self) -> bool {
        self.failures < MAX_SENDS
    }

    /// An upload that was not sent yet, of an archive and what is said of it.
    pub fn new(
        submission_id: &str,
        commit_sha: Option<&str>,
        deploy_message: Option<&str>,
        confirm_database_removal: bool,
        bundle: &'a [u8],
    ) -> (r: Upload<'a>)
        ensures
            r@.form.fields == form_fields(
                submission_id@,
                opt_str(commit_sha),
                opt_str(deploy_message),
                confirm_database_removal,
            ),
            r@.form.bundle == bundle@,
            r@.failures == 0,
    {
        let fields = fields_of(submission_id, commit_sha, deploy_message, confirm_database_removal);
        Upload { fields, bundle, failures: 0 }
    }

    /// The text fields to send.
    pub fn fields(&self) -> (r: &Vec<(String, String)>)
        ensures
            field_texts(r@) == self@.form.fields,
    {
        &self.fields
    }

    /// The archive to send.
    pub fn bundle(&self) -> (r: &'a [u8])
        ensures
            r@ == self@.form.bundle,
    {
        self.bundle
    }

    /// What to do after the form was sent, which came to `sent`.
    pub fn after(&mut self, sent: Sent) -> (r: AfterSend)
        ensures
            r == decision(old(self)@.failures, sent),
            final(self)@ == after_sending(old(self)@, sent),
    {
        proof {
            use_type_invariant(&*self);
        }
        let next = after_send(self.failures, sent);
        match next {
            AfterSend::SendAgain { pause_ms: _ } => {
                self.failures = self.failures + 1;
            },
            AfterSend::Accept => {},
            AfterSend::Fail => {},
        }
        next
    }
}

impl<'a> DeployWorkflow<'a> {
    /// One attempt to upload an archive. Each attempt has an id of its own: the platform
    /// takes a repeated id for a repeated submission, and a confirmed attempt is not the one
    /// that was rejected.
    pub fn upload<'b>(
        &self,
        commit_sha: Option<&str>,
        deploy_message: Option<&str>,
        confirm_database_removal: bool,
        bundle: &'b [u8],
    ) -> (r: Upload<'b>)
        ensures
            exists|id: Seq<char>|
                random_uuid(id) && r@.form.fields == #[trigger] form_fields(
                    id,
                    opt_str(commit_sha),
                    opt_str(deploy_message),
                    confirm_database_removal,
                ),
            r@.form.bundle == bundle@,
            r@.failures == 0,
    {
        let id = random_id();
        Upload::new(id.as_str(), commit_sha, deploy_message, confirm_database_removal, bundle)
    }
}

/// The archive as a part of an upload.
#[derive(Debug)]
pub struct BundlePart {
    pub name: &'static str,
    pub file_name: &'static str,
    pub mime: &'static str,
}

/// The archive as a part of an upload. It follows the text fields.
pub fn bundle_part() -> (r: BundlePart)
    ensures
        r.name@ == "bundle"@,
        r.file_name@ == "project.tar.zst"@,
        r.mime@ == "application/zstd"@,
{
    BundlePart { name: "bundle", file_name: "project.tar.zst", mime: "application/zstd" }
}

/// The line that says how long a phase took.
pub fn timing_line(phase: &str, millis: u64) -> (r: String)
    ensures
        r@ == "@timing phase="@ + phase@ + " ms="@ + decimal(millis as int),
{
    "@timing phase=".to_string().concat(phase).concat(" ms=").concat(decimal_text(millis).as_str())
}

/// The pipeline that is watched once an upload was answered.
pub open spec fn watched(detach: bool, started: Option<i64>) -> Option<i64> {
    if detach {
        None
    } else {
        started
    }
}

/// What is said once an upload was answered.
pub open spec fn upload_shown(
    environment: Seq<char>,
    project: Seq<char>,
    json: bool,
    detach: bool,
    started: Option<i64>,
) -> Seq<NoticeView> {
    match started {
        None => if json {
            seq![NoticeView::Plain("{\"status\":\"baseline_skipped\"}"@)]
        } else {
            says("Baseline deploy skipped — the project already has a succeeded deploy."@)
        },
        Some(id) => {
            let first = if json {
                seq![
                    NoticeView::Plain(
                        "{\"pipeline_run_id\":"@ + signed_decimal(id as int) + "}"@,
                    ),
                ]
            } else if detach {
                says(
                    "Started "@ + environment + " deployment for project "@ + project + " (#"@
                        + signed_decimal(id as int) + ")."@,
                )
            } else {
                Seq::empty()
            };
            if detach {
                first
            } else {
                first + says("Deploying "@ + environment + " for project "@ + project + "..."@)
            }
        },
    }
}

impl<'a> DeployWorkflow<'a> {
    /// What is said once an upload was answered, and which pipeline to watch, if any.
    /// `started` is the pipeline that was started; none where the platform skipped a
    /// baseline deploy.
    pub fn deploy_attempt(&self, config: &ProjectConfig, args: &DeployArgs, started: Option<i64>) -> (r:
        (Vec<Notice>, Option<i64>))
        ensures
            notices(r.0@) == upload_shown(
                args.environment@,
                config.project@,
                args.json,
                args.detach,
                started,
            ),
            r.1 == if args.detach {
                None
            } else {
                started
            },
            r.1 == watched(args.detach, started),
    {
        let mut shown: Vec<Notice> = Vec::new();
        let id: i64 = match started {
            None => {
                if args.json {
                    shown.push(Notice::Plain("{\"status\":\"baseline_skipped\"}".to_string()));
                    proof {
                        assert(notices(shown@) =~= seq![shown@[0]@]);
                    }
                    return (shown, None);
                }
                return (
                    say(
                        "Baseline deploy skipped — the project already has a succeeded deploy.".to_string(),
                    ),
                    None,
                );
            },
            Some(id) => id,
        };
        if args.json {
            let line = "{\"pipeline_run_id\":".to_string().concat(
                signed_text(id).as_str(),
            ).concat("}");
            shown.push(Notice::Plain(line));
        } else if args.detach {
            let line = "Started ".to_string().concat(args.environment.as_str()).concat(
                " deployment for project ",
            ).concat(config.project.as_str()).concat(" (#").concat(
                signed_text(id).as_str(),
            ).concat(").");
            shown.push(Notice::Progress(line));
        }
        if args.detach {
            proof {
                assert(notices(shown@) =~= seq![shown@[0]@]);
            }
            return (shown, None);
        }
        let line = "Deploying ".to_string().concat(args.environment.as_str()).concat(
            " for project ",
        ).concat(config.project.as_str()).concat("...");
        shown.push(Notice::Progress(line));
        proof {
            assert(notices(shown@) =~= upload_shown(
                args.environment@,
                config.project@,
                args.json,
                args.detach,
                started,
            ));
        }
        (shown, Some(id))
    }
}

// ---------------------------------------------------------------------------
// Trying again
// ---------------------------------------------------------------------------

/// What is asked before signing in with Google.
pub fn google_login_question() -> (r: String)
    ensures
        r@ == "Sign in with Google now? Your guest account and its projects are kept. [Y/n] "@,
{
    "Sign in with Google now? Your guest account and its projects are kept. [Y/n] ".to_string()
}

/// Whether an answer agrees to sign in with Google.
pub fn confirm_google_login(answer: &str) -> (r: bool)
    ensures
        r == means_yes(answer@),
{
    confirm_yes(answer)
}

/// What is asked before a database is removed.
pub fn removal_question() -> (r: String)
    ensures
        r@ == "Type the project name to confirm removing the database: "@,
{
    "Type the project name to confirm removing the database: ".to_string()
}

/// Holds what was typed against the name of the project: a database is not removed for a
/// mere yes.
pub fn confirm_database_removal_prompt(project: &str, answer: &str) -> (r: Result<(), String>)
    ensures
        match r {
            Ok(()) => trim(answer@) == project@,
            Err(m) => trim(answer@) != project@ && m@
                == "aborted: typed value did not match the project name"@,
        },
{
    confirm_typed(answer, project, "aborted: typed value did not match the project name")
}

/// Where a deploy stands. Each phase names the work that is done in it.
#[derive(Clone, Copy, Debug, PartialEq, Eq, Structural)]
pub enum Phase {
    /// Make sure of credentials.
    Credentials,
    /// Make sure of the project on the platform.
    Project,
    /// Make the checkpoint.
    Checkpoint,
    /// Push it.
    Push,
    /// Build the archive.
    Archive,
    /// Upload the archive, and watch the pipeline.
    First,
    /// Ask whether to sign in with Google.
    AskGoogle,
    /// Sign in.
    SignIn,
    /// Upload the same archive once more, signed in.
    Second,
    /// Ask for the project's name, to remove its database.
    AskRemoval,
    /// Upload the same archive once more, with the removal confirmed.
    Confirmed,
    /// Offer the link that opens the project in a browser.
    Link,
    Succeeded,
    /// The deploy failed with the last error that an upload came to.
    Rejected,
    /// The deploy failed with the error that the last phase came to.
    Stopped,
}

/// What came of a phase.
#[derive(Debug)]
pub enum Event {
    Done,
    /// The platform turned the upload down.
    Refused(ApiError),
    /// It failed in another way.
    Failed,
    /// This was typed.
    Typed(String),
}

/// What holds for a deploy as a whole.
#[derive(Debug)]
pub struct Terms {
    pub project: String,
    /// Whether somebody is there to be asked.
    pub interactive: bool,
    /// Whether the removal of a database was confirmed beforehand.
    pub confirm_database_removal: bool,
    /// Whether a link may be offered.
    pub offers_link: bool,
}

/// Whether somebody is there to be asked.
pub open spec fn attended(json: bool, terminal: bool) -> bool {
    !json && terminal
}

/// Whether a deploy offers the link that opens the project in a browser.
pub open spec fn link_offered(json: bool, detach: bool) -> bool {
    !json && !detach
}

/// Whether these are the terms of a deploy that was asked for like this.
pub open spec fn terms_of(
    t: Terms,
    project: Seq<char>,
    json: bool,
    detach: bool,
    confirm_database_removal: bool,
    terminal: bool,
) -> bool {
    &&& t.project@ == project
    &&& t.interactive == attended(json, terminal)
    &&& t.confirm_database_removal == confirm_database_removal
    &&& t.offers_link == link_offered(json, detach)
}

/// What holds for a deploy as a whole.
pub fn terms(config: &ProjectConfig, args: &DeployArgs, terminal: bool) -> (r: Terms)
    ensures
        r.project@ == config.project@,
        r.interactive == attended(args.json, terminal),
        r.confirm_database_removal == args.confirm_database_removal,
        r.offers_link == (!args.json && !args.detach),
        r.offers_link == link_offered(args.json, args.detach),
        terms_of(
            r,
            config.project@,
            args.json,
            args.detach,
            args.confirm_database_removal,
            terminal,
        ),
{
    Terms {
        project: config.project.clone(),
        interactive: !args.json && terminal,
        confirm_database_removal: args.confirm_database_removal,
        offers_link: !args.json && !args.detach,
    }
}

/// Whether an error has a code.
pub open spec fn coded(api: ApiError, code: Seq<char>) -> bool {
    opt_text(api.code) == Some(code)
}

/// The end of a deploy that went out.
pub open spec fn went_out(t: Terms) -> Phase {
    if t.offers_link {
        Phase::Link
    } else {
        Phase::Succeeded
    }
}

/// What follows an upload that the platform turned down, when signing in does not help: a
/// removal that nobody confirmed can be confirmed now.
pub open spec fn turned_down(t: Terms, api: ApiError) -> Phase {
    if !t.confirm_database_removal && t.interactive && coded(
        api,
        "database_removal_requires_confirmation"@,
    ) {
        Phase::AskRemoval
    } else {
        Phase::Rejected
    }
}

/// The phase that follows.
pub open spec fn next_phase(t: Terms, phase: Phase, event: Event) -> Phase {
    match (phase, event) {
        (Phase::Credentials, Event::Done) => Phase::Project,
        (Phase::Project, Event::Done) => Phase::Checkpoint,
        (Phase::Checkpoint, Event::Done) => Phase::Push,
        (Phase::Push, Event::Done) => Phase::Archive,
        (Phase::Archive, Event::Done) => Phase::First,
        (Phase::First, Event::Done) => went_out(t),
        (Phase::First, Event::Refused(api)) => if t.interactive && coded(
            api,
            "google_account_required"@,
        ) {
            Phase::AskGoogle
        } else {
            turned_down(t, api)
        },
        (Phase::AskGoogle, Event::Typed(answer)) => if means_yes(answer@) {
            Phase::SignIn
        } else {
            Phase::Rejected
        },
        (Phase::SignIn, Event::Done) => Phase::Second,
        (Phase::Second, Event::Done) => went_out(t),
        (Phase::Second, Event::Refused(api)) => turned_down(t, api),
        (Phase::AskRemoval, Event::Typed(answer)) => if trim(answer@) == t.project@ {
            Phase::Confirmed
        } else {
            Phase::Stopped
        },
        (Phase::Confirmed, Event::Done) => went_out(t),
        (Phase::Confirmed, Event::Refused(_)) => Phase::Rejected,
        (Phase::Link, _) => Phase::Succeeded,
        (Phase::Succeeded, _) => Phase::Succeeded,
        (Phase::Rejected, _) => Phase::Rejected,
        _ => Phase::Stopped,
    }
}

/// What is said on the way to the next phase: why the upload was turned down, before a
/// question is put about it.
pub open spec fn phase_shown(t: Terms, phase: Phase, event: Event) -> Seq<NoticeView> {
    match event {
        Event::Refused(api) => if next_phase(t, phase, event) is AskGoogle || next_phase(
            t,
            phase,
            event,
        ) is AskRemoval {
            says(api.error@)
        } else {
            Seq::empty()
        },
        _ => Seq::empty(),
    }
}

/// A step of a deploy.
#[derive(Debug)]
pub struct DeployStep {
    pub say: Vec<Notice>,
    pub phase: Phase,
    /// What went wrong, where the step itself found it.
    pub error: Option<String>,
}

fn goes_out(t: &Terms) -> (r: Phase)
    ensures
        r == went_out(*t),
{
    if t.offers_link {
        Phase::Link
    } else {
        Phase::Succeeded
    }
}

fn is_turned_down(t: &Terms, api: &ApiError) -> (r: Phase)
    ensures
        r == turned_down(*t, *api),
{
    if !t.confirm_database_removal && t.interactive && api.has_code(
        "database_removal_requires_confirmation",
    ) {
        Phase::AskRemoval
    } else {
        Phase::Rejected
    }
}

/// The phase that follows.
fn follow(t: &Terms, phase: Phase, event: &Event) -> (r: Phase)
    ensures
        r == next_phase(*t, phase, *event),
{
    match (phase, event) {
        (Phase::Credentials, Event::Done) => Phase::Project,
        (Phase::Project, Event::Done) => Phase::Checkpoint,
        (Phase::Checkpoint, Event::Done) => Phase::Push,
        (Phase::Push, Event::Done) => Phase::Archive,
        (Phase::Archive, Event::Done) => Phase::First,
        (Phase::First, Event::Done) => goes_out(t),
        (Phase::First, Event::Refused(api)) => {
            if t.interactive && api.has_code("google_account_required") {
                Phase::AskGoogle
            } else {
                is_turned_down(t, api)
            }
        },
        (Phase::AskGoogle, Event::Typed(answer)) => {
            if confirm_google_login(answer.as_str()) {
                Phase::SignIn
            } else {
                Phase::Rejected
            }
        },
        (Phase::SignIn, Event::Done) => Phase::Second,
        (Phase::Second, Event::Done) => goes_out(t),
        (Phase::Second, Event::Refused(api)) => is_turned_down(t, api),
        (Phase::AskRemoval, Event::Typed(answer)) => {
            if same(trimmed(answer.as_str()).as_str(), t.project.as_str()) {
                Phase::Confirmed
            } else {
                Phase::Stopped
            }
        },
        (Phase::Confirmed, Event::Done) => goes_out(t),
        (Phase::Confirmed, Event::Refused(_)) => Phase::Rejected,
        (Phase::Link, _) => Phase::Succeeded,
        (Phase::Succeeded, _) => Phase::Succeeded,
        (Phase::Rejected, _) => Phase::Rejected,
        _ => Phase::Stopped,
    }
}

/// What is said where an answer stops a deploy.
pub open spec fn stop_text(phase: Phase, event: Event, next: Phase) -> Option<Seq<char>> {
    if phase is AskRemoval && event is Typed && next is Stopped {
        Some("aborted: typed value did not match the project name"@)
    } else {
        None
    }
}

impl<'a> DeployWorkflow<'a> {
    /// The phase that a deploy begins with.
    pub fn begin(&self) -> (r: Phase)
        ensures
            r == Phase::Credentials,
    {
        Phase::Credentials
    }

    /// The step that follows `event` in `phase`. A guest may only deploy frontends, and a
    /// deploy that drops the database must be confirmed: where somebody is there to be
    /// asked, both are asked for and the upload is made again. Checkpoint, push and archive
    /// are not.
    pub fn deploy_inner(&self, t: &Terms, phase: Phase, event: &Event) -> (r: DeployStep)
        ensures
            r.phase == next_phase(*t, phase, *event),
            notices(r.say@) == phase_shown(*t, phase, *event),
            opt_text(r.error) == if phase is AskRemoval && event is Typed && r.phase is Stopped {
                Some("aborted: typed value did not match the project name"@)
            } else {
                None
            },
            opt_text(r.error) == stop_text(phase, *event, r.phase),
    {
        let next = follow(t, phase, event);
        let mut error: Option<String> = None;
        match (phase, event) {
            (Phase::AskRemoval, Event::Typed(answer)) => {
                match confirm_database_removal_prompt(t.project.as_str(), answer.as_str()) {
                    Ok(()) => {},
                    Err(m) => {
                        error = Some(m);
                    },
                }
            },
            _ => {},
        }
        let said = match event {
            Event::Refused(api) => match next {
                Phase::AskGoogle => say(api.error.clone()),
                Phase::AskRemoval => say(api.error.clone()),
                _ => silence(),
            },
            _ => silence(),
        };
        DeployStep { say: said, phase: next, error }
    }
}

/// Whether a phase uploads.
pub open spec fn uploads(phase: Phase) -> bool {
    phase is First || phase is Second || phase is Confirmed
}

/// What came of a phase that failed.
pub open spec fn failed_as(phase: Phase, api: Option<ApiError>) -> Event {
    match api {
        Some(api) => if uploads(phase) {
            Event::Refused(api)
        } else {
            Event::Failed
        },
        None => Event::Failed,
    }
}

/// What came of a phase that failed. `api` is the platform's error, where that is what it
/// failed with: only an upload is turned down by one.
pub fn failure_event(phase: Phase, api: Option<ApiError>) -> (r: Event)
    ensures
        r == failed_as(phase, api),
        match api {
            Some(api) => if uploads(phase) {
                r == Event::Refused(api)
            } else {
                r is Failed
            },
            None => r is Failed,
        },
{
    let uploading = match phase {
        Phase::First => true,
        Phase::Second => true,
        Phase::Confirmed => true,
        _ => false,
    };
    match api {
        Some(api) => {
            if uploading {
                Event::Refused(api)
            } else {
                Event::Failed
            }
        },
        None => Event::Failed,
    }
}

/// Whether an upload confirms that the project's database may be removed.
pub open spec fn confirms_removal(t: Terms, phase: Phase) -> bool {
    t.confirm_database_removal || phase is Confirmed
}

/// Whether the upload of a phase confirms that the project's database may be removed.
pub fn upload_confirms(t: &Terms, phase: Phase) -> (r: bool)
    ensures
        r == confirms_removal(*t, phase),
{
    let confirmed = match phase {
        Phase::Confirmed => true,
        _ => false,
    };
    t.confirm_database_removal || confirmed
}

/// How far a deploy has come.
pub open spec fn rank(phase: Phase) -> int {
    match phase {
        Phase::Credentials => 0,
        Phase::Project => 1,
        Phase::Checkpoint => 2,
        Phase::Push => 3,
        Phase::Archive => 4,
        Phase::First => 5,
        Phase::AskGoogle => 6,
        Phase::SignIn => 7,
        Phase::Second => 8,
        Phase::AskRemoval => 9,
        Phase::Confirmed => 10,
        Phase::Link => 11,
        Phase::Succeeded => 12,
        Phase::Rejected => 12,
        Phase::Stopped => 12,
    }
}

/// Whether a deploy is over.
pub open spec fn at_end(phase: Phase) -> bool {
    rank(phase) == 12
}

/// No phase comes twice: until it is over, a deploy only moves on. So the checkpoint is made
/// once, pushed once and packed once, however often the upload is made.
pub proof fn law_no_phase_twice(t: Terms, phase: Phase, event: Event)
    ensures
        at_end(phase) ==> next_phase(t, phase, event) == phase,
        !at_end(phase) ==> rank(next_phase(t, phase, event)) > rank(phase),
{
}

/// The phases that a deploy goes through from `phase` on, when what comes of them is
/// `events`.
pub open spec fn phases(t: Terms, phase: Phase, events: Seq<Event>) -> Seq<Phase>
    decreases events.len(),
{
    if events.len() == 0 {
        seq![phase]
    } else {
        seq![phase] + phases(t, next_phase(t, phase, events[0]), events.skip(1))
    }
}

/// How many of the phases upload.
pub open spec fn upload_count(list: Seq<Phase>) -> int
    decreases list.len(),
{
    if list.len() == 0 {
        0
    } else {
        upload_count(list.skip(1)) + if uploads(list[0]) {
            1int
        } else {
            0
        }
    }
}

spec fn uploads_left(phase: Phase) -> int {
    if rank(phase) <= 5 {
        3
    } else if rank(phase) <= 8 {
        2
    } else if rank(phase) <= 10 {
        1
    } else {
        0
    }
}

proof fn lemma_uploads_left(t: Terms, phase: Phase, events: Seq<Event>)
    ensures
        upload_count(phases(t, phase, events)) <= uploads_left(phase),
    decreases events.len(),
{
    let list = phases(t, phase, events);
    assert(list[0] == phase);
    if events.len() == 0 {
        assert(list.skip(1) =~= Seq::<Phase>::empty());
        assert(upload_count(list.skip(1)) == 0);
    } else {
        let next = next_phase(t, phase, events[0]);
        lemma_uploads_left(t, next, events.skip(1));
        assert(list.skip(1) =~= phases(t, next, events.skip(1)));
    }
}

/// Whatever comes of its phases, a deploy uploads at most three times.
pub proof fn law_at_most_three_uploads(t: Terms, events: Seq<Event>)
    ensures
        upload_count(phases(t, Phase::Credentials, events)) <= 3,
{
    lemma_uploads_left(t, Phase::Credentials, events);
}

proof fn lemma_unattended(t: Terms, phase: Phase, events: Seq<Event>)
    requires
        !t.interactive,
        rank(phase) <= 5 || rank(phase) >= 11,
    ensures
        upload_count(phases(t, phase, events)) <= if rank(phase) <= 5 {
            1int
        } else {
            0
        },
        forall|i: int|
            0 <= i < phases(t, phase, events).len() ==> rank(#[trigger] phases(t, phase, events)[i])
                <= 5 || rank(phases(t, phase, events)[i]) >= 11,
    decreases events.len(),
{
    let list = phases(t, phase, events);
    assert(list[0] == phase);
    if events.len() == 0 {
        assert(list.skip(1) =~= Seq::<Phase>::empty());
        assert(upload_count(list.skip(1)) == 0);
    } else {
        let next = next_phase(t, phase, events[0]);
        lemma_unattended(t, next, events.skip(1));
        let rest = phases(t, next, events.skip(1));
        assert(list.skip(1) =~= rest);
        assert forall|i: int| 0 <= i < list.len() implies rank(#[trigger] list[i]) <= 5 || rank(
            list[i],
        ) >= 11 by {
            if i > 0 {
                assert(list[i] == rest[i - 1]);
            }
        }
    }
}

/// Where nobody is there to be asked, nothing is asked: a deploy goes through no phase
/// between the first upload and its end, and uploads at most once.
pub proof fn law_unattended_deploys_ask_nothing(t: Terms, events: Seq<Event>, i: int)
    requires
        !t.interactive,
        0 <= i < phases(t, Phase::Credentials, events).len(),
    ensures
        ({
            let phase = phases(t, Phase::Credentials, events)[i];
            !(phase is AskGoogle) && !(phase is SignIn) && !(phase is Second) && !(
            phase is AskRemoval) && !(phase is Confirmed)
        }),
        upload_count(phases(t, Phase::Credentials, events)) <= 1,
{
    lemma_unattended(t, Phase::Credentials, events);
}

/// An upload confirms the removal of a database only where that was confirmed beforehand
/// or the project's name was just typed.
pub proof fn law_removal_is_confirmed(t: Terms, phase: Phase, event: Event)
    requires
        uploads(next_phase(t, phase, event)),
        confirms_removal(t, next_phase(t, phase, event)),
    ensures
        t.confirm_database_removal || (phase is AskRemoval && (event matches Event::Typed(name)
            && trim(name@) == t.project@)),
{
}

/// Nothing is done in the working tree before the project is settled on the platform, and
/// nothing is uploaded before the push: where the project was not created, or the push
/// failed, the deploy goes no further.
pub proof fn law_settled_in_order(t: Terms, phase: Phase, event: Event)
    ensures
        next_phase(t, phase, event) is Checkpoint ==> phase is Project && event is Done,
        next_phase(t, phase, event) is Push ==> phase is Checkpoint && event is Done,
        next_phase(t, phase, event) is Archive ==> phase is Push && event is Done,
        next_phase(t, phase, event) is First ==> phase is Archive && event is Done,
{
}

// ---------------------------------------------------------------------------
// The link, and the error line
// ---------------------------------------------------------------------------

/// The page of a project.
pub fn project_page(web_origin: &str, project: &str) -> (r: String)
    ensures
        r@ == web_origin@ + "/projects/"@ + project@,
{
    web_origin.to_string().concat("/projects/").concat(project)
}

/// What is said of the link that opens the project in a browser.
pub fn link_shown(url: &str) -> (r: Vec<Notice>)
    ensures
        notices(r@) == says(
            "View your project in the browser (one-time sign-in link, valid 10 minutes): "@ + url@,
        ),
{
    say(
        "View your project in the browser (one-time sign-in link, valid 10 minutes): ".to_string().concat(
            url,
        ),
    )
}

/// A member of an object, where it has a value.
pub open spec fn optional_member(name: Seq<char>, value: Option<Seq<char>>) -> Seq<Seq<char>> {
    match value {
        Some(value) => seq![name + json_literal(value)],
        None => Seq::empty(),
    }
}

/// An issue as JSON, without what it does not have.
pub open spec fn issue_json(issue: ApiErrorIssue) -> Seq<char> {
    "{"@ + join(
        optional_member("\"docs_url\":"@, opt_text(issue.docs_url)) + optional_member(
            "\"message\":"@,
            opt_text(issue.message),
        ) + optional_member("\"path\":"@, opt_text(issue.path)),
        ","@,
    ) + "}"@
}

/// Issues as JSON.
pub open spec fn issue_jsons(issues: Seq<ApiErrorIssue>) -> Seq<Seq<char>> {
    issues.map_values(|i: ApiErrorIssue| issue_json(i))
}

/// What a deploy failed with.
#[derive(Debug)]
pub enum DeployError {
    /// An error of the platform.
    Api(ApiError),
    /// Another error, with everything that lies beneath it in one line.
    Other(String),
}

/// The members of the error line.
pub open spec fn error_members(error: DeployError) -> Seq<Seq<char>> {
    match error {
        DeployError::Api(api) => {
            let issues = if api.issues@.len() > 0 {
                seq!["\"issues\":["@ + join(issue_jsons(api.issues@), ","@) + "]"@]
            } else {
                Seq::empty()
            };
            optional_member("\"code\":"@, opt_text(api.code)) + seq![
                "\"error\":"@ + json_literal(api.error@),
            ] + issues
        },
        DeployError::Other(text) => seq!["\"error\":"@ + json_literal(text@)],
    }
}

/// The line that `--json` writes for a failure: the platform's own error, and the status.
pub open spec fn error_line(error: DeployError) -> Seq<char> {
    "{"@ + join(error_members(error) + seq!["\"status\":\"error\""@], ","@) + "}"@
}

fn add_member(list: &mut Vec<String>, name: &str, value: &Option<String>)
    ensures
        texts(final(list)@) == texts(old(list)@) + optional_member(name@, opt_text(*value)),
{
    let ghost had = texts(list@);
    match value {
        Some(value) => {
            let text = name.to_string().concat(json_string(value.as_str()).as_str());
            list.push(text);
            proof {
                assert(texts(list@) =~= had + seq![text@]);
            }
        },
        None => {
            proof {
                assert(texts(list@) =~= had + Seq::<Seq<char>>::empty());
            }
        },
    }
}

fn issue_line(issue: &ApiErrorIssue) -> (r: String)
    ensures
        r@ == issue_json(*issue),
{
    let mut list: Vec<String> = Vec::new();
    proof {
        assert(texts(list@) =~= Seq::<Seq<char>>::empty());
    }
    add_member(&mut list, "\"docs_url\":", &issue.docs_url);
    add_member(&mut list, "\"message\":", &issue.message);
    add_member(&mut list, "\"path\":", &issue.path);
    proof {
        assert(texts(list@) =~= optional_member("\"docs_url\":"@, opt_text(issue.docs_url))
            + optional_member("\"message\":"@, opt_text(issue.message)) + optional_member(
            "\"path\":"@,
            opt_text(issue.path),
        ));
    }
    "{".to_string().concat(joined(&list, ",").as_str()).concat("}")
}

fn issue_lines(issues: &Vec<ApiErrorIssue>) -> (r: Vec<String>)
    ensures
        texts(r@) == issue_jsons(issues@),
{
    let mut list: Vec<String> = Vec::new();
    let ghost all = issue_jsons(issues@);
    let mut i: usize = 0;
    while i < issues.len()
        invariant
            i <= issues@.len(),
            all == issue_jsons(issues@),
            texts(list@) == all.take(i as int),
        decreases issues@.len() - i,
    {
        let ghost had = texts(list@);
        let text = issue_line(&issues[i]);
        list.push(text);
        proof {
            assert(texts(list@) =~= had.push(text@));
            assert(all.take(i + 1) =~= all.take(i as int).push(all[i as int]));
        }
        i = i + 1;
    }
    proof {
        assert(all.take(i as int) =~= all);
    }
    list
}

/// The line that `--json` writes for a failure.
pub fn json_error_payload(error: &DeployError) -> (r: String)
    ensures
        r@ == error_line(*error),
{
    let mut list: Vec<String> = Vec::new();
    proof {
        assert(texts(list@) =~= Seq::<Seq<char>>::empty());
    }
    match error {
        DeployError::Api(api) => {
            add_member(&mut list, "\"code\":", &api.code);
            let text = "\"error\":".to_string().concat(json_string(api.error.as_str()).as_str());
            list.push(text);
            if api.issues.len() > 0 {
                let lines = issue_lines(&api.issues);
                let text = "\"issues\":[".to_string().concat(
                    joined(&lines, ",").as_str(),
                ).concat("]");
                list.push(text);
            }
        },
        DeployError::Other(text) => {
            let text = "\"error\":".to_string().concat(json_string(text.as_str()).as_str());
            list.push(text);
        },
    }
    proof {
        assert(texts(list@) =~= error_members(*error));
    }
    let ghost had = texts(list@);
    list.push("\"status\":\"error\"".to_string());
    proof {
        assert(texts(list@) =~= had + seq!["\"status\":\"error\""@]);
    }
    "{".to_string().concat(joined(&list, ",").as_str()).concat("}")
}

/// The line that a deploy ends with.
pub open spec fn last_line(json: bool, error: Option<DeployError>) -> Option<NoticeView> {
    match error {
        Some(error) => if json {
            Some(NoticeView::Plain(error_line(error)))
        } else {
            None
        },
        None => None,
    }
}

impl<'a> DeployWorkflow<'a> {
    /// The line that a deploy ends with where it failed: one for a program, where that was
    /// asked for.
    pub fn deploy(&self, args: &DeployArgs, error: Option<&DeployError>) -> (r: Option<Notice>)
        ensures
            match error {
                Some(error) => if args.json {
                    r matches Some(line) && line@ == NoticeView::Plain(error_line(*error))
                } else {
                    r is None
                },
                None => r is None,
            },
            last_line(
                args.json,
                match error {
                    Some(error) => Some(*error),
                    None => None,
                },
            ) == match r {
                Some(line) => Some(line@),
                None => None,
            },
    {
        match error {
            Some(error) => {
                if args.json {
                    Some(Notice::Plain(json_error_payload(error)))
                } else {
                    None
                }
            },
            None => None,
        }
    }
}

// ---------------------------------------------------------------------------
// Laws of the account and the project
// ---------------------------------------------------------------------------

/// Credentials that are there are used. A guest is created only where there are none,
/// somebody is there to be asked, and they said yes; and nobody is asked where nobody is
/// there.
pub proof fn law_no_guest_unasked(
    json: bool,
    terminal: bool,
    has_credentials: bool,
    answer: Option<Seq<char>>,
)
    ensures
        credentials_step(json, terminal, has_credentials, answer) is Ready <==> has_credentials,
        credentials_step(json, terminal, has_credentials, answer) is CreateGuest <==> !has_credentials
            && !json && terminal && answer is Some && means_yes(answer->0),
        credentials_step(json, terminal, has_credentials, answer) is Ask <==> !has_credentials
            && !json && terminal && answer is None,
{
}

/// A project is created only where it is not there, and then only where that was asked for
/// beforehand or somebody who is there says yes. It gets the title of the configuration,
/// trimmed, or one made of its slug.
pub proof fn law_no_project_unasked(
    config: ProjectConfig,
    create: bool,
    json: bool,
    terminal: bool,
    existing: Option<Seq<char>>,
    answer: Option<Seq<char>>,
)
    ensures
        ({
            let step = project_step(config, create, json, terminal, existing, answer);
            &&& step is Create <==> existing is None && (create || (!json && terminal && answer is Some
                && means_yes(answer->0)))
            &&& step is Ask <==> existing is None && !create && !json && terminal && answer is None
            &&& step is Refuse <==> existing is None && !create && (json || !terminal || (answer is Some
                && !means_yes(answer->0)))
            &&& step matches ProjectView::Create { title, .. } ==> title == match config.title {
                Some(wanted) => trim(wanted@),
                None => title_of_slug(config.project@),
            }
        }),
{
}

/// A project that is there gets another title only where the configuration names one that
/// differs, and then that very title, trimmed.
pub proof fn law_titles_follow_the_configuration(
    config: ProjectConfig,
    create: bool,
    json: bool,
    terminal: bool,
    current: Seq<char>,
    answer: Option<Seq<char>>,
)
    ensures
        ({
            let step = project_step(config, create, json, terminal, Some(current), answer);
            &&& config.title is None ==> step is Keep
            &&& config.title is Some && trim(config.title->0@) == current ==> step is Keep
            &&& config.title is Some && trim(config.title->0@) != current ==> (
            step matches ProjectView::Retitle { title, .. } && title == trim(config.title->0@))
        }),
{
}

// ---------------------------------------------------------------------------
// Laws of the checkpoint
// ---------------------------------------------------------------------------

/// The commit of a checkpoint carries the message that the deploy was given, whatever the
/// environment; without one it names the environment.
pub proof fn law_commits_say_what_they_are_for(environment: Seq<char>, message: Seq<char>)
    ensures
        commit_message(environment, Some(message)) == message,
        ends_with(commit_message(environment, None), environment),
        starts_with(commit_message(environment, None), "gbandit deploy "@),
        commit_message(environment, None).len() == "gbandit deploy "@.len() + environment.len(),
{
    law_texts_contain_their_parts("gbandit deploy "@, environment, Seq::empty());
    law_texts_contain_their_parts(Seq::empty(), "gbandit deploy "@, environment);
}

/// Whatever `git status` lists, be it one new file, is staged first where the deploy commits:
/// nothing goes out as a commit that does not hold it.
pub proof fn law_whatever_is_listed_is_staged(
    message: Seq<char>,
    runs: Seq<GitRun>,
    stdout: Vec<u8>,
    stderr: Vec<u8>,
    i: int,
)
    requires
        runs.len() == 2,
        runs[0] matches GitRun::Ran { success: true, .. },
        runs[1] == (GitRun::Ran { success: true, stdout, stderr }),
        0 <= i < stdout@.len(),
        stdout@[i] != 32 && stdout@[i] != 9 && stdout@[i] != 10 && stdout@[i] != 13,
    ensures
        checkpoint(true, message, runs) == (GitStepView::<Option<Seq<char>>>::Run {
            say: seq![NoticeView::Progress("Auto-committing working tree..."@)],
            args: seq!["add"@, "-A"@],
        }),
{
    law_any_entry_makes_a_tree_dirty(runs[1], stdout, stderr, i);
}

/// A deploy that commits goes out as a commit that `git` named, in a working tree, and
/// behind a clean tree or behind staging and committing that both succeeded: no failure on
/// the way is passed over.
pub proof fn law_checkpoints_are_commits(
    message: Seq<char>,
    runs: Seq<GitRun>,
    say: Seq<NoticeView>,
    sha: Option<Seq<char>>,
)
    requires
        checkpoint(true, message, runs) == (GitStepView::Finished { say, result: Ok(sha) }),
    ensures
        runs.len() >= 3,
        runs[0] matches GitRun::Ran { success: true, .. },
        runs[1] matches GitRun::Ran { success: true, .. },
        clean_of(runs[1]) == Ok::<bool, FaultView>(true) ==> head_of(runs[2]) == Ok::<
            Option<Seq<char>>,
            FaultView,
        >(sha),
        clean_of(runs[1]) == Ok::<bool, FaultView>(false) ==> runs.len() >= 5 && added_of(
            runs[2],
        ) is Ok && committed_of(runs[3]) is Ok && head_of(runs[4]) == Ok::<
            Option<Seq<char>>,
            FaultView,
        >(sha),
{
    assert(runs.len() >= 2);
    match runs[0] {
        GitRun::NotStarted(_) => {},
        GitRun::Ran { .. } => {},
    }
    match runs[1] {
        GitRun::NotStarted(_) => {},
        GitRun::Ran { .. } => {},
    }
    let rest = runs.skip(2);
    if rest.len() > 0 {
        assert(rest[0] == runs[2]);
    }
    if rest.len() > 1 {
        assert(rest[1] == runs[3]);
        if rest.len() > 2 {
            assert(rest.skip(2)[0] == runs[4]);
        }
    }
}

/// A deploy that does not commit never fails for want of a repository or of a clean tree: it
/// goes out without a commit.
pub proof fn law_checkpoints_are_no_condition(message: Seq<char>, runs: Seq<GitRun>)
    requires
        runs.len() >= 1,
    ensures
        runs[0] matches GitRun::Ran { success: false, .. } ==> (checkpoint(
            false,
            message,
            runs,
        ) matches GitStepView::Finished { result, .. } && result == Ok::<
            Option<Seq<char>>,
            FaultView,
        >(None)),
        runs.len() >= 2 && (runs[0] matches GitRun::Ran { success: true, .. }) && clean_of(
            runs[1],
        ) is Err ==> (checkpoint(false, message, runs) matches GitStepView::Finished { result, .. }
            && result == Ok::<Option<Seq<char>>, FaultView>(None)),
        runs[0] matches GitRun::Ran { success: false, .. } ==> (checkpoint(
            true,
            message,
            runs,
        ) matches GitStepView::Finished { result, .. } && result is Err),
{
}

// ---------------------------------------------------------------------------
// Laws of the push
// ---------------------------------------------------------------------------

/// A push is made only of a commit, to an `origin` that is there both times it is asked for;
/// it goes to the main branch of it.
pub proof fn law_what_is_pushed_where(auto_commit: bool, committed: bool, runs: Seq<GitRun>)
    ensures
        gate_steps(auto_commit, committed, runs) matches GitStepView::Run { args, .. } && args[0]
            == "push"@ ==> auto_commit && committed && runs.len() == 2 && origin_of(runs[0]) == Ok::<
            bool,
            FaultView,
        >(true) && origin_of(runs[1]) == Ok::<bool, FaultView>(true),
        auto_commit && committed && runs.len() == 2 && origin_of(runs[0]) == Ok::<bool, FaultView>(
            true,
        ) && origin_of(runs[1]) == Ok::<bool, FaultView>(true) ==> gate_steps(
            auto_commit,
            committed,
            runs,
        ) == run::<()>(seq!["push"@, "origin"@, "HEAD:main"@]),
        !committed ==> gate_steps(auto_commit, committed, runs) == over::<()>(Ok(())),
        committed && runs.len() >= 1 && origin_of(runs[0]) == Ok::<bool, FaultView>(false)
            ==> gate_steps(auto_commit, committed, runs) == over::<()>(Ok(())),
        committed && runs.len() >= 1 && origin_of(runs[0]) is Err ==> (gate_steps(
            auto_commit,
            committed,
            runs,
        ) matches GitStepView::Finished { result, .. } && result is Err),
{
    reveal_strlit("push");
    reveal_strlit("remote");
    assert("push"@.len() == 4 && "remote"@.len() == 6);
}

/// A deploy goes on behind a push that succeeded and where there is nothing to push to; it
/// ends with the words of `git` behind any other.
pub proof fn law_pushes_end_in_words(view: PushView)
    ensures
        pushed(view) matches GitStepView::Finished { result, .. } && (result is Ok <==> view is Pushed
            || view is NoRemote),
        view matches PushView::NonFastForward(detail) ==> (pushed(
            view,
        ) matches GitStepView::Finished { result, .. } && result is Err && ends_with(
            result->Err_0.message,
            detail,
        )),
        view matches PushView::Network(detail) ==> (pushed(
            view,
        ) matches GitStepView::Finished { result, .. } && result is Err && ends_with(
            result->Err_0.message,
            detail,
        )),
        view matches PushView::Auth(detail) ==> (pushed(
            view,
        ) matches GitStepView::Finished { result, .. } && result is Err && ends_with(
            result->Err_0.message,
            detail,
        )),
{
    match view {
        PushView::NonFastForward(detail) => {
            law_texts_contain_their_parts(
                "push rejected (non-fast-forward) — pull from the linked remote and retry. If you're in Pi, ask it to use the pull_remote skill. From a laptop, run `git pull --rebase`. Aborting deploy.\n\n"@,
                detail,
                Seq::empty(),
            );
        },
        PushView::Network(detail) => {
            law_texts_contain_their_parts(
                "push failed — network unreachable. Aborting deploy so the Checkpoint stays in sync with the remote.\n\n"@,
                detail,
                Seq::empty(),
            );
        },
        PushView::Auth(detail) => {
            law_texts_contain_their_parts(
                "push failed — authentication rejected. Looks like the Deploy Key isn't installed any more (or your laptop's git credentials are wrong). Reconnect from the Settings page or fix your local credentials, then retry. Aborting deploy.\n\n"@,
                detail,
                Seq::empty(),
            );
        },
        _ => {},
    }
}

// ---------------------------------------------------------------------------
// Laws of the upload and what follows it
// ---------------------------------------------------------------------------

/// A form has no field but those that it was given.
pub proof fn law_forms_have_no_other_fields(
    submission_id: Seq<char>,
    commit_sha: Option<Seq<char>>,
    deploy_message: Option<Seq<char>>,
    confirm_database_removal: bool,
)
    ensures
        form_fields(submission_id, commit_sha, deploy_message, confirm_database_removal).len() == 1
            + (if commit_sha is Some {
            1int
        } else {
            0
        }) + (if deploy_message is Some {
            1int
        } else {
            0
        }) + (if confirm_database_removal {
            1int
        } else {
            0
        }),
        form_fields(submission_id, commit_sha, deploy_message, confirm_database_removal)[0] == (
            "submission_id"@,
            submission_id,
        ),
{
}

/// The pipeline that was started is watched to its end unless the deploy is detached, and a
/// baseline deploy that was skipped leaves nothing to watch.
pub proof fn law_started_pipelines_are_watched(detach: bool, id: i64)
    ensures
        watched(false, Some(id)) == Some(id),
        watched(true, Some(id)) is None,
        watched(detach, None) is None,
{
}

/// In JSON mode the first line names the pipeline, or says that there is none; only there is
/// anything plain. A detached deploy says that it was started, and any other that it is on
/// its way, each with the environment and the project.
pub proof fn law_uploads_are_answered_for(
    environment: Seq<char>,
    project: Seq<char>,
    json: bool,
    detach: bool,
    id: i64,
)
    ensures
        ({
            let shown = upload_shown(environment, project, json, detach, Some(id));
            &&& json ==> shown.len() > 0 && shown[0] == NoticeView::Plain(
                "{\"pipeline_run_id\":"@ + signed_decimal(id as int) + "}"@,
            )
            &&& !detach ==> shown.len() > 0 && shown.last() == NoticeView::Progress(
                "Deploying "@ + environment + " for project "@ + project + "..."@,
            )
            &&& detach && !json ==> shown == seq![
                NoticeView::Progress(
                    "Started "@ + environment + " deployment for project "@ + project + " (#"@
                        + signed_decimal(id as int) + ")."@,
                ),
            ]
            &&& shown.len() == (if json {
                1int
            } else {
                0
            }) + (if !detach || !json {
                1int
            } else {
                0
            })
        }),
        upload_shown(environment, project, json, detach, None).len() == 1,
        upload_shown(environment, project, json, detach, None)[0] is Plain <==> json,
{
}

/// Only what an upload is turned down with is held against the platform's reasons; any other
/// failure is just that.
pub proof fn law_only_uploads_are_turned_down(phase: Phase, api: ApiError)
    ensures
        failed_as(phase, Some(api)) == if phase is First || phase is Second || phase is Confirmed {
            Event::Refused(api)
        } else {
            Event::Failed
        },
        failed_as(phase, None) is Failed,
{
}

/// Where every phase succeeds, a deploy goes through login, project, checkpoint, push,
/// archive and upload, in this order, and ends well, with a link where one may be offered.
pub proof fn law_good_deploys_run_through(t: Terms)
    ensures
        next_phase(t, Phase::Credentials, Event::Done) is Project,
        next_phase(t, Phase::Project, Event::Done) is Checkpoint,
        next_phase(t, Phase::Checkpoint, Event::Done) is Push,
        next_phase(t, Phase::Push, Event::Done) is Archive,
        next_phase(t, Phase::Archive, Event::Done) is First,
        forall|phase: Phase|
            phase is First || phase is Second || phase is Confirmed ==> (#[trigger] next_phase(
                t,
                phase,
                Event::Done,
            ) is Link <==> t.offers_link) && (next_phase(t, phase, Event::Done) is Succeeded
                <==> !t.offers_link),
        forall|event: Event| #[trigger] next_phase(t, Phase::Link, event) is Succeeded,
{
}

/// A phase that fails ends the deploy, but for the link, which a deploy that went out does
/// not depend on.
pub proof fn law_failures_end_the_deploy(t: Terms, phase: Phase)
    requires
        !at_end(phase),
        !(phase is Link),
    ensures
        next_phase(t, phase, Event::Failed) is Stopped,
{
}

/// An upload that is turned down for want of a Google account, the first time and with
/// somebody there, is asked about; one that would remove a database nobody agreed to remove
/// is asked about; any other ends the deploy. Why it was turned down is said before a
/// question, and only then.
pub proof fn law_what_follows_a_refusal(t: Terms, phase: Phase, api: ApiError)
    requires
        phase is First || phase is Second || phase is Confirmed,
    ensures
        ({
            let next = next_phase(t, phase, Event::Refused(api));
            let google = api.code is Some && api.code->0@ == "google_account_required"@;
            let removal = api.code is Some && api.code->0@
                == "database_removal_requires_confirmation"@;
            &&& next is AskGoogle <==> phase is First && t.interactive && google
            &&& next is AskRemoval <==> !(phase is Confirmed) && t.interactive && removal
                && !t.confirm_database_removal
            &&& !(next is AskGoogle) && !(next is AskRemoval) ==> next is Rejected
            &&& next is Rejected ==> phase_shown(t, phase, Event::Refused(api)).len() == 0
            &&& !(next is Rejected) ==> phase_shown(t, phase, Event::Refused(api)) == seq![
                NoticeView::Progress(api.error@),
            ]
        }),
{
    reveal_strlit("google_account_required");
    reveal_strlit("database_removal_requires_confirmation");
    assert("google_account_required"@.len() == 23);
    assert("database_removal_requires_confirmation"@.len() == 38);
}

/// A yes leads to signing in and to one more upload; a no ends the deploy. The name of the
/// project leads to one more upload; anything else typed stops the deploy.
pub proof fn law_answers_decide(t: Terms, answer: String)
    ensures
        next_phase(t, Phase::AskGoogle, Event::Typed(answer)) is SignIn <==> means_yes(answer@),
        next_phase(t, Phase::AskGoogle, Event::Typed(answer)) is Rejected <==> !means_yes(answer@),
        next_phase(t, Phase::SignIn, Event::Done) is Second,
        next_phase(t, Phase::AskRemoval, Event::Typed(answer)) is Confirmed <==> trim(answer@)
            == t.project@,
        next_phase(t, Phase::AskRemoval, Event::Typed(answer)) is Stopped <==> trim(answer@)
            != t.project@,
{
}

/// Somebody is there to be asked exactly at a terminal and outside JSON mode.
pub proof fn law_who_is_there(json: bool, terminal: bool)
    ensures
        attended(json, terminal) <==> terminal && !json,
{
}

/// The error line says what went wrong, in the words of the platform where it is the
/// platform's error.
pub proof fn law_error_lines_say_what_went_wrong(error: DeployError)
    ensures
        error matches DeployError::Api(api) ==> contains(
            error_line(error),
            "\"error\":"@ + json_literal(api.error@),
        ),
        error matches DeployError::Other(text) ==> contains(
            error_line(error),
            "\"error\":"@ + json_literal(text@),
        ),
{
    let members = error_members(error) + seq!["\"status\":\"error\""@];
    let at: int = match error {
        DeployError::Api(api) => if api.code is Some {
            1
        } else {
            0
        },
        DeployError::Other(_) => 0,
    };
    law_joined_texts_hold_their_parts(members, ","@, at);
    lemma_wrapped(join(members, ","@), members[at]);
}

/// The error line says that the status is an error, and under which code, where there is one.
pub proof fn law_error_lines_say_the_status(error: DeployError)
    ensures
        contains(error_line(error), "\"status\":\"error\""@),
        (error is Api && error->Api_0.code is Some) ==> contains(
            error_line(error),
            "\"code\":"@ + json_literal(error->Api_0.code->0@),
        ),
{
    let members = error_members(error) + seq!["\"status\":\"error\""@];
    let body = join(members, ","@);
    law_joined_texts_hold_their_parts(members, ","@, members.len() - 1);
    lemma_wrapped(body, members[members.len() - 1]);
    law_joined_texts_hold_their_parts(members, ","@, 0);
    lemma_wrapped(body, members[0]);
}

/// The error line is one object: it begins and ends with a brace.
pub proof fn law_error_lines_are_objects(error: DeployError)
    ensures
        starts_with(error_line(error), "{"@),
        ends_with(error_line(error), "}"@),
{
    let body = join(error_members(error) + seq!["\"status\":\"error\""@], ","@);
    law_texts_contain_their_parts(Seq::empty(), "{"@, body + "}"@);
    assert("{"@ + (body + "}"@) =~= error_line(error));
    law_texts_contain_their_parts("{"@ + body, "}"@, Seq::empty());
}

proof fn lemma_wrapped(body: Seq<char>, part: Seq<char>)
    requires
        contains(body, part),
    ensures
        contains("{"@ + body + "}"@, part),
{
    let i = choose|i: int| #[trigger] occurs_at(body, part, i);
    let line = "{"@ + body + "}"@;
    let j = i + "{"@.len();
    assert(line.subrange(j, j + part.len()) =~= body.subrange(i, i + part.len()));
    assert(occurs_at(line, part, j));
}

/// An issue is told with each of its parts that it has, under the part's own name.
pub proof fn law_issues_keep_their_parts(issue: ApiErrorIssue)
    ensures
        issue.docs_url is Some ==> contains(
            issue_json(issue),
            "\"docs_url\":"@ + json_literal(issue.docs_url->0@),
        ),
        issue.message is Some ==> contains(
            issue_json(issue),
            "\"message\":"@ + json_literal(issue.message->0@),
        ),
        issue.path is Some ==> contains(
            issue_json(issue),
            "\"path\":"@ + json_literal(issue.path->0@),
        ),
{
    let docs = optional_member("\"docs_url\":"@, opt_text(issue.docs_url));
    let message = optional_member("\"message\":"@, opt_text(issue.message));
    let path = optional_member("\"path\":"@, opt_text(issue.path));
    let members = docs + message + path;
    let body = join(members, ","@);
    if issue.docs_url is Some {
        law_joined_texts_hold_their_parts(members, ","@, 0);
        lemma_wrapped(body, members[0]);
    }
    if issue.message is Some {
        law_joined_texts_hold_their_parts(members, ","@, docs.len() as int);
        lemma_wrapped(body, members[docs.len() as int]);
    }
    if issue.path is Some {
        law_joined_texts_hold_their_parts(members, ","@, (docs.len() + message.len()) as int);
        lemma_wrapped(body, members[(docs.len() + message.len()) as int]);
    }
}

/// A link to the browser is offered only where a person waits for the deploy to end.
pub proof fn law_links_are_for_people_who_wait(json: bool, detach: bool)
    ensures
        link_offered(json, detach) <==> !(json || detach),
{
}

/// A deploy that an answer stopped says why, and an answer that lets it go on says nothing.
pub proof fn law_stopped_deploys_say_why(t: Terms, answer: String)
    ensures
        ({
            let typed = Event::Typed(answer);
            let next = next_phase(t, Phase::AskRemoval, typed);
            &&& next is Stopped <==> trim(answer@) != t.project@
            &&& next is Stopped <==> stop_text(Phase::AskRemoval, typed, next) is Some
        }),
{
}

/// A deploy that failed ends with a line for a program exactly where that was asked for, and
/// one that did not fail never does.
pub proof fn law_failures_are_told_to_programs(json: bool, error: DeployError)
    ensures
        last_line(json, None) is None,
        last_line(true, Some(error)) == Some(NoticeView::Plain(error_line(error))),
        last_line(false, Some(error)) is None,
{
}

/// A deploy is confirmed only where that was asked for, questions are put only where a person
/// sits at a terminal, and a link is offered only where they wait for the end.
pub proof fn law_terms_are_what_was_asked_for(
    t: Terms,
    project: Seq<char>,
    json: bool,
    detach: bool,
    confirmed: bool,
    terminal: bool,
)
    requires
        terms_of(t, project, json, detach, confirmed, terminal),
    ensures
        t.project@ == project,
        t.confirm_database_removal <==> confirmed,
        t.interactive <==> terminal && !json,
        t.offers_link <==> !json && !detach,
{
}

/// An error line has no member for what an error does not have: a code is written only where
/// there is one, and issues only where there are some, all of them and in their order.
pub proof fn law_error_lines_leave_out_what_is_missing(api: ApiError, text: String)
    ensures
        ({
            let members = error_members(DeployError::Api(api));
            let coded = if api.code is Some {
                1int
            } else {
                0
            };
            &&& api.issues@.len() == 0 ==> members.len() == 1 + coded
            &&& api.issues@.len() > 0 ==> members.len() == 2 + coded
            &&& api.issues@.len() > 0 ==> members.last() == "\"issues\":["@ + join(
                issue_jsons(api.issues@),
                ","@,
            ) + "]"@
            &&& members[coded] == "\"error\":"@ + json_literal(api.error@)
        }),
        error_members(DeployError::Other(text)).len() == 1,
{
}

} // verus!
