//! What each command comes to.

use vstd::prelude::*;
use vstd::string::*;

use crate::cli::{
    environment_name, law_names_tell_apart, source_name, Command, EnvAction, Environment, LogTarget,
    ProjectAction,
};
use crate::config::{
    file_outcome, load_project_config, readable, resolve_project, ConfigFile, ConfigView,
    ProjectConfig,
};
use crate::deploy_workflow::DeployArgs;
use crate::env_vars::EnvVars;
use crate::fault::{Fault, FaultView};
use crate::numbers::{pad, padded};
use crate::outside::{upper, uppercase};
use crate::platform_client::LogEntry;
use crate::printer::{confirm_typed, notices, Notice, NoticeView};
use crate::text::{
    before_suffix, chars_of, cut, ends_with, find, find_in, law_texts_contain_their_parts,
    law_trimming_keeps_the_middle, lemma_find_from, occurs_at, opt_str, opt_text, split_once,
    starts_with, string_of, trim, white,
};

verus! {

/// A command, with everything that the configuration adds to it.
#[derive(Debug)]
pub enum Task {
    Login,
    LoginGuest,
    Whoami,
    Update { tag: Option<String> },
    Sql { environment: Environment, project: String, query: String },
    Deploy { config: ProjectConfig, args: DeployArgs },
    Logs { environment: Environment, component: LogTarget, project: String },
    EnvSet { environment: Environment, project: String, pairs: Vec<String> },
    EnvList { environment: Environment, project: String },
    EnvDelete { environment: Environment, project: String, key: String },
    ProjectDelete { slug: String, yes: bool },
    Scaffold { name: Option<String>, title: Option<String>, target: Option<String> },
    Docs { page: Option<String>, full: bool },
    Logout,
}

/// The project that a command works on.
pub open spec fn chosen_project(named: Option<String>, file: ConfigFile) -> Result<Seq<char>, FaultView> {
    match named {
        Some(project) => Ok(project@),
        None => match file_outcome(file) {
            Ok(config) => Ok(config.project),
            Err(fault) => Err(fault),
        },
    }
}

/// The configuration that a deploy works with.
pub open spec fn chosen_config(named: Option<String>, file: ConfigFile) -> Result<
    ConfigView,
    FaultView,
> {
    match named {
        Some(project) => Ok(
            match file_outcome(file) {
                Ok(config) => ConfigView { project: project@, ..config },
                Err(_) => ConfigView { project: project@, title: None, auto_commit: false },
            },
        ),
        None => file_outcome(file),
    }
}

/// Whether `r` failed with this.
pub open spec fn fails_with(r: Result<Task, Fault>, fault: FaultView) -> bool {
    r matches Err(f) && f@ == fault
}

/// Whether `r` is what `command` comes to, where `file` is the configuration that was
/// found.
pub open spec fn comes_to(command: Command, file: ConfigFile, r: Result<Task, Fault>) -> bool {
    match command {
        Command::Login { guest } => r == Ok::<Task, Fault>(
            if guest {
                Task::LoginGuest
            } else {
                Task::Login
            },
        ),
        Command::Whoami => r == Ok::<Task, Fault>(Task::Whoami),
        Command::Update { tag } => r == Ok::<Task, Fault>(Task::Update { tag }),
        Command::Sql { query, environment, project } => match chosen_project(project, file) {
            Ok(chosen) => r matches Ok(Task::Sql { environment: e, project: p, query: q }) && e
                == environment && p@ == chosen && q == query,
            Err(fault) => fails_with(r, fault),
        },
        Command::Deploy {
            environment,
            project,
            message,
            baseline,
            create,
            confirm_database_removal,
            detach,
            json,
        } => match chosen_config(project, file) {
            Ok(chosen) => r matches Ok(Task::Deploy { config, args }) && config@ == chosen
                && args.environment@ == environment_name(environment) && args.message == message
                && args.baseline == baseline && args.create == create
                && args.confirm_database_removal == confirm_database_removal && args.detach == detach
                && args.json == json,
            Err(fault) => fails_with(r, fault),
        },
        Command::Logs { component, environment, project } => match chosen_project(project, file) {
            Ok(chosen) => r matches Ok(Task::Logs { environment: e, component: c, project: p }) && e
                == environment && c == component && p@ == chosen,
            Err(fault) => fails_with(r, fault),
        },
        Command::Env { action } => match action {
            EnvAction::Assign { pairs, environment, project } => match chosen_project(project, file) {
                Ok(chosen) => r matches Ok(Task::EnvSet { environment: e, project: p, pairs: v })
                    && e == environment && p@ == chosen && v == pairs,
                Err(fault) => fails_with(r, fault),
            },
            EnvAction::List { environment, project } => match chosen_project(project, file) {
                Ok(chosen) => r matches Ok(Task::EnvList { environment: e, project: p }) && e
                    == environment && p@ == chosen,
                Err(fault) => fails_with(r, fault),
            },
            EnvAction::Delete { key, environment, project } => match chosen_project(
                project,
                file,
            ) {
                Ok(chosen) => r matches Ok(Task::EnvDelete { environment: e, project: p, key: k })
                    && e == environment && p@ == chosen && k == key,
                Err(fault) => fails_with(r, fault),
            },
        },
        Command::Project { action } => match action {
            ProjectAction::Delete { slug, yes } => r == Ok::<Task, Fault>(
                Task::ProjectDelete { slug, yes },
            ),
        },
        Command::Scaffold { name, title, target } => r == Ok::<Task, Fault>(
            Task::Scaffold { name, title, target },
        ),
        Command::Docs { page, full } => r == Ok::<Task, Fault>(Task::Docs { page, full }),
        Command::Logout => r == Ok::<Task, Fault>(Task::Logout),
    }
}

/// What a command comes to, where `file` is the configuration that was found.
pub fn run(command: Command, file: &ConfigFile) -> (r: Result<Task, Fault>)
    requires
        readable(*file),
    ensures
        comes_to(command, *file, r),
{
    match command {
        Command::Login { guest } => if guest {
            Ok(Task::LoginGuest)
        } else {
            Ok(Task::Login)
        },
        Command::Whoami => Ok(Task::Whoami),
        Command::Update { tag } => Ok(Task::Update { tag }),
        Command::Sql { query, environment, project } => match resolve_project(project, file) {
            Ok(project) => Ok(Task::Sql { environment, project, query }),
            Err(fault) => Err(fault),
        },
        Command::Deploy {
            environment,
            project,
            message,
            baseline,
            create,
            confirm_database_removal,
            detach,
            json,
        } => match load_project_config(project, file) {
            Ok(config) => {
                let args = DeployArgs {
                    environment: environment.as_str().to_string(),
                    message,
                    baseline,
                    create,
                    confirm_database_removal,
                    detach,
                    json,
                };
                Ok(Task::Deploy { config, args })
            },
            Err(fault) => Err(fault),
        },
        Command::Logs { component, environment, project } => match resolve_project(project, file) {
            Ok(project) => Ok(Task::Logs { environment, component, project }),
            Err(fault) => Err(fault),
        },
        Command::Env { action } => match action {
            EnvAction::Assign { pairs, environment, project } => match resolve_project(project, file) {
                Ok(project) => Ok(Task::EnvSet { environment, project, pairs }),
                Err(fault) => Err(fault),
            },
            EnvAction::List { environment, project } => match resolve_project(project, file) {
                Ok(project) => Ok(Task::EnvList { environment, project }),
                Err(fault) => Err(fault),
            },
            EnvAction::Delete { key, environment, project } => match resolve_project(
                project,
                file,
            ) {
                Ok(project) => Ok(Task::EnvDelete { environment, project, key }),
                Err(fault) => Err(fault),
            },
        },
        Command::Project { action } => match action {
            ProjectAction::Delete { slug, yes } => Ok(Task::ProjectDelete { slug, yes }),
        },
        Command::Scaffold { name, title, target } => Ok(Task::Scaffold { name, title, target }),
        Command::Docs { page, full } => Ok(Task::Docs { page, full }),
        Command::Logout => Ok(Task::Logout),
    }
}

/// Whether a command needs the project's configuration.
pub open spec fn reads_config(command: Command) -> bool {
    match command {
        Command::Sql { project, .. } => project is None,
        Command::Deploy { .. } => true,
        Command::Logs { project, .. } => project is None,
        Command::Env { action } => match action {
            EnvAction::Assign { project, .. } => project is None,
            EnvAction::List { project, .. } => project is None,
            EnvAction::Delete { project, .. } => project is None,
        },
        _ => false,
    }
}

/// Whether a command needs the project's configuration.
pub fn needs_config(command: &Command) -> (r: bool)
    ensures
        r == reads_config(*command),
{
    match command {
        Command::Sql { project, .. } => project.is_none(),
        Command::Deploy { .. } => true,
        Command::Logs { project, .. } => project.is_none(),
        Command::Env { action } => match action {
            EnvAction::Assign { project, .. } => project.is_none(),
            EnvAction::List { project, .. } => project.is_none(),
            EnvAction::Delete { project, .. } => project.is_none(),
        },
        _ => false,
    }
}

/// A command that does not need the configuration comes to the same whatever is in it.
pub proof fn law_unneeded_config_is_ignored(
    command: Command,
    one: ConfigFile,
    other: ConfigFile,
    r: Result<Task, Fault>,
)
    requires
        !reads_config(command),
    ensures
        comes_to(command, one, r) == comes_to(command, other, r),
{
}

// ---------------------------------------------------------------------------
// Documentation
// ---------------------------------------------------------------------------

/// A text without its leading slashes.
pub open spec fn without_slashes(s: Seq<char>) -> Seq<char>
    decreases s.len(),
{
    if s.len() > 0 && s[0] == '/' {
        without_slashes(s.skip(1))
    } else {
        s
    }
}

/// A text without the `.md` that it ends in, once or more often.
pub open spec fn without_md(s: Seq<char>) -> Seq<char>
    decreases s.len(),
{
    if ends_with(s, ".md"@) && ".md"@.len() > 0 {
        without_md(s.take(s.len() - ".md"@.len()))
    } else {
        s
    }
}

/// A text up to its first `#` or `?`.
pub open spec fn without_anchor(s: Seq<char>) -> Seq<char>
    decreases s.len(),
{
    if s.len() == 0 || s[0] == '#' || s[0] == '?' {
        Seq::empty()
    } else {
        seq![s[0]] + without_anchor(s.skip(1))
    }
}

/// The page that a name stands for.
pub open spec fn page_name(page: Seq<char>) -> Seq<char> {
    without_anchor(without_md(without_slashes(page)))
}

/// The address of a page of the documentation: of all of it, of one page, or of the index.
pub open spec fn docs_address(origin: Seq<char>, page: Option<Seq<char>>, full: bool) -> Seq<char> {
    if full {
        origin + "/llms-full.txt"@
    } else {
        match page {
            Some(page) => origin + "/"@ + page_name(page) + ".md"@,
            None => origin + "/llms.txt"@,
        }
    }
}

fn strip_slashes(page: &str) -> (r: String)
    ensures
        r@ == without_slashes(page@),
{
    let v = chars_of(page);
    let mut i: usize = 0;
    proof {
        assert(v@.skip(0) =~= v@);
    }
    while i < v.len() && v[i] == '/'
        invariant
            v@ == page@,
            i <= v@.len(),
            without_slashes(v@.skip(i as int)) == without_slashes(v@),
        decreases v@.len() - i,
    {
        proof {
            assert(v@.skip(i as int)[0] == v@[i as int]);
            assert(v@.skip(i as int).skip(1) =~= v@.skip(i + 1));
        }
        i = i + 1;
    }
    proof {
        if i < v@.len() {
            assert(v@.skip(i as int)[0] == v@[i as int]);
        }
        assert(v@.skip(i as int) =~= v@.subrange(i as int, v@.len() as int));
    }
    string_of(&v, i, v.len())
}

fn strip_md(page: String) -> (r: String)
    ensures
        r@ == without_md(page@),
{
    let mut rest = page;
    loop
        invariant
            without_md(rest@) == without_md(page@),
        decreases rest@.len(),
    {
        proof {
            reveal_strlit(".md");
        }
        match before_suffix(rest.as_str(), ".md") {
            Some(shorter) => {
                rest = shorter;
            },
            None => {
                return rest;
            },
        }
    }
}

fn strip_anchor(page: &str) -> (r: String)
    ensures
        r@ == without_anchor(page@),
{
    let v = chars_of(page);
    let mut i: usize = 0;
    proof {
        assert(v@.skip(0) =~= v@);
        assert(v@.take(0) + without_anchor(v@) =~= without_anchor(v@));
    }
    while i < v.len() && v[i] != '#' && v[i] != '?'
        invariant
            v@ == page@,
            i <= v@.len(),
            without_anchor(v@) == v@.take(i as int) + without_anchor(v@.skip(i as int)),
        decreases v@.len() - i,
    {
        proof {
            let rest = v@.skip(i as int);
            assert(rest[0] == v@[i as int]);
            assert(rest.skip(1) =~= v@.skip(i + 1));
            assert(v@.take(i as int) + (seq![rest[0]] + without_anchor(rest.skip(1))) =~= v@.take(
                i + 1,
            ) + without_anchor(v@.skip(i + 1)));
        }
        i = i + 1;
    }
    proof {
        if i < v@.len() {
            assert(v@.skip(i as int)[0] == v@[i as int]);
        }
        assert(without_anchor(v@.skip(i as int)) =~= Seq::<char>::empty());
        assert(v@.take(i as int) =~= v@.subrange(0, i as int));
    }
    string_of(&v, 0, i)
}

/// The address of a page of the documentation.
pub fn docs_url(origin: &str, page: &Option<String>, full: bool) -> (r: String)
    ensures
        r@ == docs_address(origin@, opt_text(*page), full),
{
    if full {
        return origin.to_string().concat("/llms-full.txt");
    }
    match page {
        Some(page) => {
            let name = strip_anchor(strip_md(strip_slashes(page.as_str())).as_str());
            origin.to_string().concat("/").concat(name.as_str()).concat(".md")
        },
        None => origin.to_string().concat("/llms.txt"),
    }
}

/// What to say of a page that could not be fetched.
pub fn docs_unreachable(url: &str, origin: &str) -> (r: String)
    ensures
        r@ == "failed to fetch "@ + url@ + " — check your network; the docs live at "@ + origin@,
{
    "failed to fetch ".to_string().concat(url).concat(
        " — check your network; the docs live at ",
    ).concat(origin)
}

/// Whether a status says that there is no such page.
pub open spec fn no_such_page(status: u16) -> bool {
    status == 404
}

/// Whether there is no such page: then what to say of it. Any other reply is read as it is.
pub fn docs(url: &str, status: u16) -> (r: Result<(), String>)
    ensures
        match r {
            Ok(()) => status != 404,
            Err(m) => status == 404 && m@ == "no docs page at "@ + url@
                + " — run `gbandit docs` to list available pages"@,
        },
        r is Err <==> no_such_page(status),
{
    if status == 404 {
        return Err(
            "no docs page at ".to_string().concat(url).concat(
                " — run `gbandit docs` to list available pages",
            ),
        );
    }
    Ok(())
}

/// What to say of a page that was answered with an error.
pub fn docs_failed(url: &str) -> (r: String)
    ensures
        r@ == "failed to fetch "@ + url@,
{
    "failed to fetch ".to_string().concat(url)
}

/// What to say of a page that could not be read.
pub fn docs_unread(url: &str) -> (r: String)
    ensures
        r@ == "failed to read response body from "@ + url@,
{
    "failed to read response body from ".to_string().concat(url)
}

// ---------------------------------------------------------------------------
// Logs
// ---------------------------------------------------------------------------

/// How many bytes a character takes in UTF-8.
pub open spec fn width(c: char) -> int {
    if (c as u32) < 0x80 {
        1
    } else if (c as u32) < 0x800 {
        2
    } else if (c as u32) < 0x10000 {
        3
    } else {
        4
    }
}

/// The character that begins at byte `at`; `None` where none begins or ends there.
pub open spec fn char_at_byte(s: Seq<char>, at: int) -> Option<int>
    decreases s.len(),
{
    if at == 0 {
        Some(0)
    } else if s.len() == 0 || at < width(s[0]) {
        None
    } else {
        match char_at_byte(s.skip(1), at - width(s[0])) {
            Some(i) => Some(i + 1),
            None => None,
        }
    }
}

/// The part of a text between two bytes; `None` where a character is cut or the text is
/// too short.
pub open spec fn bytes_between(s: Seq<char>, from: int, to: int) -> Option<Seq<char>> {
    match (char_at_byte(s, from), char_at_byte(s, to)) {
        (Some(i), Some(j)) => Some(s.subrange(i, j)),
        _ => None,
    }
}

fn width_of(c: char) -> (r: usize)
    ensures
        r == width(c),
        1 <= r <= 4,
{
    let code: u32 = c as u32;
    if code < 0x80 {
        1
    } else if code < 0x800 {
        2
    } else if code < 0x10000 {
        3
    } else {
        4
    }
}

/// The character that begins at byte `at`.
fn find_byte(v: &Vec<char>, at: usize) -> (r: Option<usize>)
    ensures
        match r {
            Some(i) => i <= v@.len() && char_at_byte(v@, at as int) == Some(i as int),
            None => char_at_byte(v@, at as int) is None,
        },
{
    let mut i: usize = 0;
    let mut left: usize = at;
    proof {
        assert(v@.skip(0) =~= v@);
    }
    while left > 0
        invariant
            i <= v@.len(),
            left <= at,
            char_at_byte(v@, at as int) == match char_at_byte(v@.skip(i as int), left as int) {
                Some(j) => Some(i + j),
                None => None,
            },
        decreases left,
    {
        if i >= v.len() {
            return None;
        }
        let w: usize = width_of(v[i]);
        proof {
            assert(v@.skip(i as int)[0] == v@[i as int]);
            assert(v@.skip(i as int).skip(1) =~= v@.skip(i + 1));
        }
        if left < w {
            return None;
        }
        left = left - w;
        i = i + 1;
    }
    Some(i)
}

proof fn lemma_char_at_byte_grows(s: Seq<char>, from: int, to: int)
    requires
        0 <= from <= to,
        char_at_byte(s, from) is Some,
        char_at_byte(s, to) is Some,
    ensures
        0 <= char_at_byte(s, from)->0 <= char_at_byte(s, to)->0 <= s.len(),
    decreases s.len(),
{
    if from > 0 {
        lemma_char_at_byte_grows(s.skip(1), from - width(s[0]), to - width(s[0]));
    } else if to > 0 {
        lemma_char_at_byte_grows(s.skip(1), 0, to - width(s[0]));
    }
}

/// The time of day in a timestamp, or all of it where it has another form.
pub open spec fn time_of(timestamp: Seq<char>) -> Seq<char> {
    match bytes_between(timestamp, 11, 19) {
        Some(time) => time,
        None => timestamp,
    }
}

fn entry_time(timestamp: &str) -> (r: String)
    ensures
        r@ == time_of(timestamp@),
{
    let v = chars_of(timestamp);
    match (find_byte(&v, 11), find_byte(&v, 19)) {
        (Some(i), Some(j)) => {
            proof {
                lemma_char_at_byte_grows(timestamp@, 11, 19);
            }
            string_of(&v, i, j)
        },
        _ => timestamp.to_string(),
    }
}

/// A URL without its scheme and host.
pub open spec fn path_of(url: Seq<char>) -> Seq<char> {
    let rest = match split_once(url, "://"@) {
        Some((_, rest)) => rest,
        None => url,
    };
    match find(rest, "/"@) {
        Some(i) => rest.skip(i),
        None => "/"@,
    }
}

/// Strips scheme and host from a URL.
pub fn url_path(url: &str) -> (r: String)
    ensures
        r@ == path_of(url@),
{
    let rest = match cut(url, "://") {
        Some((_, rest)) => rest,
        None => url.to_string(),
    };
    match find_in(rest.as_str(), "/") {
        Some(i) => {
            let v = chars_of(rest.as_str());
            proof {
                crate::text::lemma_find_from(rest@, "/"@, 0);
                assert(rest@.skip(i as int) =~= rest@.subrange(i as int, rest@.len() as int));
            }
            string_of(&v, i, v.len())
        },
        None => "/".to_string(),
    }
}

/// Who was there when an entry was written.
pub open spec fn entry_user(entry: LogEntry) -> Seq<char> {
    match entry.user_name {
        Some(name) => name@,
        None => if entry.user_is_anon == Some(true) {
            "anon"@
        } else {
            "-"@
        },
    }
}

/// Where they were.
pub open spec fn entry_path(entry: LogEntry) -> Seq<char> {
    match entry.source_url {
        Some(url) => path_of(url@),
        None => "/"@,
    }
}

/// The line of an entry. `level` is its level as it is shown.
pub open spec fn entry_line(component: LogTarget, entry: LogEntry, level: Seq<char>) -> Seq<char> {
    match component {
        LogTarget::Backend => time_of(entry.timestamp@) + " "@ + entry.message@,
        LogTarget::Frontend => time_of(entry.timestamp@) + " "@ + pad(level, 5) + "  ["@
            + entry_user(entry) + " @ "@ + entry_path(entry) + "] "@ + entry.message@,
    }
}

/// The line of an entry. `level` is its level as it is shown. What a browser logged comes
/// with who hit it and where.
pub fn line_of(component: LogTarget, entry: &LogEntry, level: &str) -> (r: String)
    ensures
        r@ == entry_line(component, *entry, level@),
{
    let time = entry_time(entry.timestamp.as_str());
    match component {
        LogTarget::Backend => time.concat(" ").concat(entry.message.as_str()),
        LogTarget::Frontend => {
            let user = match &entry.user_name {
                Some(name) => name.clone(),
                None => match entry.user_is_anon {
                    Some(true) => "anon".to_string(),
                    _ => "-".to_string(),
                },
            };
            let path = match &entry.source_url {
                Some(url) => url_path(url.as_str()),
                None => "/".to_string(),
            };
            time.concat(" ").concat(padded(level, 5).as_str()).concat("  [").concat(
                user.as_str(),
            ).concat(" @ ").concat(path.as_str()).concat("] ").concat(entry.message.as_str())
        },
    }
}

/// The level of an entry, as it is shown.
pub open spec fn shown_level(entry: LogEntry) -> Seq<char> {
    match entry.level {
        Some(level) => upper(level@),
        None => ""@,
    }
}

/// What is shown of a log, which comes newest first and is shown oldest first.
pub open spec fn logs_shown(component: LogTarget, entries: Seq<LogEntry>) -> Seq<NoticeView> {
    if entries.len() == 0 {
        seq![NoticeView::Progress("No "@ + source_name(component) + " logs recorded."@)]
    } else {
        Seq::new(
            entries.len(),
            |i: int|
                {
                    let entry = entries[entries.len() - 1 - i];
                    NoticeView::Plain(entry_line(component, entry, shown_level(entry)))
                },
        )
    }
}

/// What is shown of a log.
pub fn logs(component: LogTarget, entries: &Vec<LogEntry>) -> (r: Vec<Notice>)
    ensures
        notices(r@) == logs_shown(component, entries@),
{
    let mut out: Vec<Notice> = Vec::new();
    let n: usize = entries.len();
    if n == 0 {
        let text = "No ".to_string().concat(component.as_str()).concat(" logs recorded.");
        out.push(Notice::Progress(text));
        proof {
            assert(notices(out@) =~= logs_shown(component, entries@));
        }
        return out;
    }
    let ghost all = logs_shown(component, entries@);
    let mut i: usize = 0;
    proof {
        assert(notices(out@) =~= all.take(0));
    }
    while i < n
        invariant
            n == entries@.len(),
            n > 0,
            i <= n,
            all == logs_shown(component, entries@),
            all.len() == n,
            notices(out@) == all.take(i as int),
        decreases n - i,
    {
        let ghost had = notices(out@);
        let entry = &entries[n - 1 - i];
        let level = match &entry.level {
            Some(level) => uppercase(level.as_str()),
            None => "".to_string(),
        };
        let line = Notice::Plain(line_of(component, entry, level.as_str()));
        out.push(line);
        proof {
            assert(notices(out@) =~= had.push(line@));
            assert(all[i as int] == line@);
            assert(all.take(i + 1) =~= all.take(i as int).push(all[i as int]));
        }
        i = i + 1;
    }
    proof {
        assert(all.take(i as int) =~= all);
    }
    out
}

// ---------------------------------------------------------------------------
// Environment variables
// ---------------------------------------------------------------------------

/// The lines of variables, with `mark` behind each.
pub open spec fn var_lines(pairs: Seq<(Seq<char>, Seq<char>)>, mark: Seq<char>) -> Seq<NoticeView> {
    pairs.map_values(
        |p: (Seq<char>, Seq<char>)| NoticeView::Progress(p.0 + "="@ + p.1 + mark),
    )
}

fn add_var_lines(out: &mut Vec<Notice>, vars: &EnvVars, mark: &str)
    ensures
        notices(final(out)@) == notices(old(out)@) + var_lines(vars@, mark@),
{
    let ghost before = notices(out@);
    let ghost all = var_lines(vars@, mark@);
    let mut i: usize = 0;
    proof {
        assert(before + all.take(0) =~= before);
    }
    while i < vars.len()
        invariant
            i <= vars@.len(),
            all == var_lines(vars@, mark@),
            notices(out@) == before + all.take(i as int),
        decreases vars@.len() - i,
    {
        let ghost had = notices(out@);
        let (name, value) = vars.get(i);
        let line = Notice::Progress(name.to_string().concat("=").concat(value).concat(mark));
        out.push(line);
        proof {
            assert(notices(out@) =~= had.push(line@));
            assert(all[i as int] == line@);
            assert(before + all.take(i + 1) =~= (before + all.take(i as int)).push(all[i as int]));
        }
        i = i + 1;
    }
    proof {
        assert(all.take(i as int) =~= all);
    }
}

/// What is shown of the variables that a project has once some were set.
pub fn env_set(vars: &EnvVars) -> (r: Vec<Notice>)
    ensures
        notices(r@) == var_lines(vars@, ""@),
{
    let mut out: Vec<Notice> = Vec::new();
    proof {
        assert(notices(out@) =~= Seq::<NoticeView>::empty());
    }
    add_var_lines(&mut out, vars, "");
    proof {
        assert(notices(out@) =~= var_lines(vars@, ""@));
    }
    out
}

/// What is shown of the variables that a project has, its own first.
pub open spec fn vars_shown(
    own: Seq<(Seq<char>, Seq<char>)>,
    system: Seq<(Seq<char>, Seq<char>)>,
) -> Seq<NoticeView> {
    if own.len() == 0 && system.len() == 0 {
        seq![NoticeView::Progress("No environment variables set."@)]
    } else {
        var_lines(own, ""@) + var_lines(system, " [system]"@)
    }
}

/// What is shown of the variables that a project has, its own first.
pub fn env_list(vars: &EnvVars, system_vars: &EnvVars) -> (r: Vec<Notice>)
    ensures
        notices(r@) == if vars@.len() == 0 && system_vars@.len() == 0 {
            seq![NoticeView::Progress("No environment variables set."@)]
        } else {
            var_lines(vars@, ""@) + var_lines(system_vars@, " [system]"@)
        },
        notices(r@) == vars_shown(vars@, system_vars@),
{
    let mut out: Vec<Notice> = Vec::new();
    if vars.len() == 0 && system_vars.len() == 0 {
        out.push(Notice::Progress("No environment variables set.".to_string()));
        proof {
            assert(notices(out@) =~= seq![out@[0]@]);
        }
        return out;
    }
    proof {
        assert(notices(out@) =~= Seq::<NoticeView>::empty());
    }
    add_var_lines(&mut out, vars, "");
    add_var_lines(&mut out, system_vars, " [system]");
    proof {
        assert(notices(out@) =~= var_lines(vars@, ""@) + var_lines(system_vars@, " [system]"@));
    }
    out
}

/// What is said of a variable that was deleted.
pub fn env_delete(key: &str) -> (r: Notice)
    ensures
        r@ == NoticeView::Progress("Deleted "@ + key@),
{
    Notice::Progress("Deleted ".to_string().concat(key))
}

// ---------------------------------------------------------------------------
// Deleting a project
// ---------------------------------------------------------------------------

/// What to do about a project that is to be deleted.
#[derive(Debug)]
pub enum DeleteStep {
    /// Say this, put the question, and come back with what was typed.
    Ask { say: Vec<Notice>, question: String },
    Refuse(String),
    Delete,
}

/// Whether a project may be deleted.
pub open spec fn may_delete(slug: Seq<char>, yes: bool, typed: Option<Seq<char>>) -> bool {
    yes || (typed matches Some(t) && trim(t) == slug)
}

/// Whether a project may be deleted: only where the question was skipped or the slug was
/// typed.
pub fn project_delete(slug: &str, yes: bool, typed: Option<&str>) -> (r: DeleteStep)
    ensures
        r is Delete <==> (yes || (typed matches Some(t) && trim(t@) == slug@)),
        r is Delete <==> may_delete(slug@, yes, opt_str(typed)),
        r is Ask <==> !yes && typed is None,
        !yes && typed is None ==> (r matches DeleteStep::Ask { say, question } && notices(say@)
            == seq![
            NoticeView::Progress(
                "About to permanently delete project '"@ + slug@ + "'. This destroys the dev"@,
            ),
            NoticeView::Progress("and prod databases, all deploys, all uploaded assets, and"@),
            NoticeView::Progress("the GitHub link. There is no undo and no Restore path."@),
        ] && question@ == "Type the slug to confirm: "@),
        !yes && (typed matches Some(t) && trim(t@) != slug@) ==> (r matches DeleteStep::Refuse(m)
            && m@ == "aborted: typed value did not match slug"@),
{
    if yes {
        return DeleteStep::Delete;
    }
    match typed {
        Some(typed) => match confirm_typed(typed, slug, "aborted: typed value did not match slug") {
            Ok(()) => DeleteStep::Delete,
            Err(m) => DeleteStep::Refuse(m),
        },
        None => {
            let mut say: Vec<Notice> = Vec::new();
            let first = "About to permanently delete project '".to_string().concat(slug).concat(
                "'. This destroys the dev",
            );
            say.push(Notice::Progress(first));
            say.push(
                Notice::Progress(
                    "and prod databases, all deploys, all uploaded assets, and".to_string(),
                ),
            );
            say.push(
                Notice::Progress(
                    "the GitHub link. There is no undo and no Restore path.".to_string(),
                ),
            );
            proof {
                assert(notices(say@) =~= seq![say@[0]@, say@[1]@, say@[2]@]);
            }
            DeleteStep::Ask { say, question: "Type the slug to confirm: ".to_string() }
        },
    }
}

/// What is said of a deletion that is on its way.
pub fn deletion_started(slug: &str) -> (r: Notice)
    ensures
        r@ == NoticeView::Progress(
            "Deletion started for project '"@ + slug@
                + "'. The slug stays reserved until namespace, database, and PVCs are fully torn down."@,
        ),
{
    Notice::Progress(
        "Deletion started for project '".to_string().concat(slug).concat(
            "'. The slug stays reserved until namespace, database, and PVCs are fully torn down.",
        ),
    )
}

// ---------------------------------------------------------------------------
// Laws of commands
// ---------------------------------------------------------------------------

/// The environment that a command names.
pub open spec fn asked_environment(command: Command) -> Option<Environment> {
    match command {
        Command::Sql { environment, .. } => Some(environment),
        Command::Deploy { environment, .. } => Some(environment),
        Command::Logs { environment, .. } => Some(environment),
        Command::Env { action: EnvAction::Assign { environment, .. } } => Some(environment),
        Command::Env { action: EnvAction::List { environment, .. } } => Some(environment),
        Command::Env { action: EnvAction::Delete { environment, .. } } => Some(environment),
        _ => None,
    }
}

/// The name of the environment that a task works on.
pub open spec fn task_environment(task: Task) -> Option<Seq<char>> {
    match task {
        Task::Sql { environment, .. } => Some(environment_name(environment)),
        Task::Deploy { args, .. } => Some(args.environment@),
        Task::Logs { environment, .. } => Some(environment_name(environment)),
        Task::EnvSet { environment, .. } => Some(environment_name(environment)),
        Task::EnvList { environment, .. } => Some(environment_name(environment)),
        Task::EnvDelete { environment, .. } => Some(environment_name(environment)),
        _ => None,
    }
}

/// The project that a command names.
pub open spec fn asked_project(command: Command) -> Option<Seq<char>> {
    match command {
        Command::Sql { project, .. } => opt_text(project),
        Command::Deploy { project, .. } => opt_text(project),
        Command::Logs { project, .. } => opt_text(project),
        Command::Env { action: EnvAction::Assign { project, .. } } => opt_text(project),
        Command::Env { action: EnvAction::List { project, .. } } => opt_text(project),
        Command::Env { action: EnvAction::Delete { project, .. } } => opt_text(project),
        _ => None,
    }
}

/// The project that a task works on.
pub open spec fn task_project(task: Task) -> Option<Seq<char>> {
    match task {
        Task::Sql { project, .. } => Some(project@),
        Task::Deploy { config, .. } => Some(config.project@),
        Task::Logs { project, .. } => Some(project@),
        Task::EnvSet { project, .. } => Some(project@),
        Task::EnvList { project, .. } => Some(project@),
        Task::EnvDelete { project, .. } => Some(project@),
        _ => None,
    }
}

/// Whatever the command, its task works on the environment that the command named.
pub proof fn law_tasks_stay_in_their_environment(command: Command, file: ConfigFile, task: Task)
    requires
        comes_to(command, file, Ok(task)),
    ensures
        task_environment(task) is Some <==> asked_environment(command) is Some,
        asked_environment(command) == Some(Environment::Dev) ==> task_environment(task) == Some(
            "dev"@,
        ),
        asked_environment(command) == Some(Environment::Prod) ==> task_environment(task) == Some(
            "prod"@,
        ),
{
    law_names_tell_apart(
        Environment::Dev,
        Environment::Prod,
        LogTarget::Backend,
        LogTarget::Frontend,
    );
}

/// A task works on the project that the command named; where it named none, on the one of
/// the configuration.
pub proof fn law_tasks_stay_in_their_project(command: Command, file: ConfigFile, task: Task)
    requires
        comes_to(command, file, Ok(task)),
    ensures
        asked_project(command) is Some ==> task_project(task) == asked_project(command),
        asked_project(command) is None && task_project(task) is Some ==> (file_outcome(file) matches Ok(
            config,
        ) && task_project(task) == Some(config.project)),
{
}

/// A task does what its command asked for, and with the very words of the command.
pub proof fn law_tasks_do_what_was_asked(command: Command, file: ConfigFile, task: Task)
    requires
        comes_to(command, file, Ok(task)),
    ensures
        match task {
            Task::Login => command == (Command::Login { guest: false }),
            Task::LoginGuest => command == (Command::Login { guest: true }),
            Task::Whoami => command is Whoami,
            Task::Logout => command is Logout,
            Task::Update { tag } => command == (Command::Update { tag }),
            Task::Sql { query, .. } => command matches Command::Sql { query: q, .. } && q == query,
            Task::Logs { component, .. } => command matches Command::Logs { component: c, .. } && c
                == component,
            Task::EnvSet { pairs, .. } => command matches Command::Env {
                action: EnvAction::Assign { pairs: p, .. },
            } && p == pairs,
            Task::EnvList { .. } => command matches Command::Env { action: EnvAction::List { .. } },
            Task::EnvDelete { key, .. } => command matches Command::Env {
                action: EnvAction::Delete { key: k, .. },
            } && k == key,
            Task::ProjectDelete { slug, yes } => command == (Command::Project {
                action: ProjectAction::Delete { slug, yes },
            }),
            Task::Scaffold { name, title, target } => command == (Command::Scaffold {
                name,
                title,
                target,
            }),
            Task::Docs { page, full } => command == (Command::Docs { page, full }),
            Task::Deploy { args, .. } => command matches Command::Deploy {
                message,
                baseline,
                create,
                confirm_database_removal,
                detach,
                json,
                ..
            } && args.message == message && args.baseline == baseline && args.create == create
                && args.confirm_database_removal == confirm_database_removal && args.detach == detach
                && args.json == json,
        },
{
}

/// A command fails only where it names no project and the configuration fails, and then as
/// the configuration does; a command that needs no project never fails.
pub proof fn law_only_the_configuration_fails(command: Command, file: ConfigFile, fault: Fault)
    requires
        comes_to(command, file, Err(fault)),
    ensures
        asked_environment(command) is Some,
        asked_project(command) is None,
        file_outcome(file) == Err::<ConfigView, FaultView>(fault@),
{
}

/// A deploy takes its title and its way with commits from the configuration, also where
/// another project is named.
pub proof fn law_deploys_keep_their_configuration(
    command: Command,
    file: ConfigFile,
    config: ProjectConfig,
    args: DeployArgs,
)
    requires
        comes_to(command, file, Ok(Task::Deploy { config, args })),
    ensures
        file_outcome(file) matches Ok(found) ==> config@.title == found.title && config@.auto_commit
            == found.auto_commit,
        file_outcome(file) is Err ==> config@.title is None && !config@.auto_commit,
{
}

/// Exactly the commands that name an environment and no project, and every deploy, need the
/// configuration.
pub proof fn law_which_commands_read_the_configuration(command: Command)
    ensures
        reads_config(command) <==> asked_environment(command) is Some && (asked_project(command) is None
            || command is Deploy),
{
}

// ---------------------------------------------------------------------------
// Laws of the documentation
// ---------------------------------------------------------------------------

proof fn lemma_plain_page(page: Seq<char>)
    requires
        !page.contains('#'),
        !page.contains('?'),
    ensures
        without_anchor(page) == page,
    decreases page.len(),
{
    if page.len() > 0 {
        assert(page.contains(page[0]));
        assert forall|c: char| page.skip(1).contains(c) implies page.contains(c) by {
            let i = choose|i: int| 0 <= i < page.skip(1).len() && page.skip(1)[i] == c;
            assert(page[i + 1] == c);
        }
        lemma_plain_page(page.skip(1));
        assert(seq![page[0]] + page.skip(1) =~= page);
    } else {
        assert(without_anchor(page) =~= page);
    }
}

proof fn lemma_anchor_ends_page(page: Seq<char>, rest: Seq<char>)
    requires
        !page.contains('#'),
        !page.contains('?'),
        rest.len() > 0,
        rest[0] == '#' || rest[0] == '?',
    ensures
        without_anchor(page + rest) == page,
    decreases page.len(),
{
    let all = page + rest;
    if page.len() > 0 {
        assert(page.contains(page[0]));
        assert forall|c: char| page.skip(1).contains(c) implies page.contains(c) by {
            let i = choose|i: int| 0 <= i < page.skip(1).len() && page.skip(1)[i] == c;
            assert(page[i + 1] == c);
        }
        lemma_anchor_ends_page(page.skip(1), rest);
        assert(all.skip(1) =~= page.skip(1) + rest);
        assert(seq![all[0]] + page.skip(1) =~= page);
    } else {
        assert(all[0] == rest[0]);
        assert(without_anchor(all) =~= page);
    }
}

/// The name of a page stands for itself, and however it is written: with slashes in front,
/// with `.md` behind, with an anchor or a query.
pub proof fn law_pages_however_written(origin: Seq<char>, page: Seq<char>, rest: Seq<char>)
    requires
        !page.contains('#'),
        !page.contains('?'),
        page.len() > 0 ==> page[0] != '/',
        !ends_with(page, ".md"@),
    ensures
        docs_address(origin, Some(page), false) == origin + "/"@ + page + ".md"@,
        docs_address(origin, Some(page + ".md"@), false) == docs_address(origin, Some(page), false),
        page.len() > 0 && rest.len() > 0 && (rest[0] == '#' || rest[0] == '?') && !ends_with(
            page + rest,
            ".md"@,
        ) ==> docs_address(origin, Some(page + rest), false) == docs_address(
            origin,
            Some(page),
            false,
        ),
{
    reveal_strlit(".md");
    assert(".md"@.len() == 3);
    lemma_plain_page(page);
    let long = page + ".md"@;
    assert(long.take(page.len() as int) =~= page);
    assert(long.subrange(page.len() as int, long.len() as int) =~= ".md"@);
    assert(ends_with(long, ".md"@));
    if page.len() > 0 {
        assert(long[0] == page[0]);
    } else {
        assert(long[0] == ".md"@[0]);
    }
    assert(without_md(long) == without_md(page));
    if page.len() > 0 && rest.len() > 0 && (rest[0] == '#' || rest[0] == '?') {
        assert((page + rest)[0] == page[0]);
        lemma_anchor_ends_page(page, rest);
    }
}

/// A slash in front of a page makes no difference.
pub proof fn law_leading_slashes_make_no_difference(origin: Seq<char>, page: Seq<char>)
    ensures
        docs_address(origin, Some(seq!['/'] + page), false) == docs_address(
            origin,
            Some(page),
            false,
        ),
{
    assert((seq!['/'] + page).skip(1) =~= page);
}

/// All of the documentation, and its index, are at addresses of their own, whatever page is
/// named beside them.
pub proof fn law_whole_documentation(origin: Seq<char>, page: Option<Seq<char>>)
    ensures
        docs_address(origin, page, true) == origin + "/llms-full.txt"@,
        docs_address(origin, None, false) == origin + "/llms.txt"@,
{
}

// ---------------------------------------------------------------------------
// Laws of logs
// ---------------------------------------------------------------------------

/// A log is shown oldest first: the entry that the platform names last comes first, and each
/// entry is shown before all that stand in front of it in the reply.
pub proof fn law_logs_are_shown_oldest_first(component: LogTarget, entries: Seq<LogEntry>, i: int, j: int)
    requires
        0 <= i < j < entries.len(),
    ensures
        logs_shown(component, entries).len() == entries.len(),
        ({
            let shown = logs_shown(component, entries);
            let line = |k: int|
                NoticeView::Plain(entry_line(component, entries[k], shown_level(entries[k])));
            exists|a: int, b: int|
                0 <= a < b < shown.len() && shown[a] == line(j) && shown[b] == line(i) && a + j
                    == entries.len() - 1 && b + i == entries.len() - 1
        }),
{
    let shown = logs_shown(component, entries);
    let line = |k: int|
        NoticeView::Plain(entry_line(component, entries[k], shown_level(entries[k])));
    let a = entries.len() - 1 - j;
    let b = entries.len() - 1 - i;
    assert(shown[a] == line(j));
    assert(shown[b] == line(i));
}

/// What stands behind in the reply is older, and is shown first; a single entry is its line.
pub proof fn law_older_logs_come_first(
    component: LogTarget,
    newer: Seq<LogEntry>,
    older: Seq<LogEntry>,
    entry: LogEntry,
)
    requires
        newer.len() > 0,
        older.len() > 0,
    ensures
        logs_shown(component, newer + older) == logs_shown(component, older) + logs_shown(
            component,
            newer,
        ),
        logs_shown(component, seq![entry]) == seq![
            NoticeView::Plain(entry_line(component, entry, shown_level(entry))),
        ],
{
    let all = newer + older;
    let shown = logs_shown(component, all);
    let parts = logs_shown(component, older) + logs_shown(component, newer);
    assert forall|i: int| 0 <= i < all.len() implies shown[i] == parts[i] by {
        if i < older.len() {
            assert(all[all.len() - 1 - i] == older[older.len() - 1 - i]);
        } else {
            assert(all[all.len() - 1 - i] == newer[newer.len() - 1 - (i - older.len())]);
        }
    }
    assert(shown =~= parts);
    assert(logs_shown(component, seq![entry]) =~= seq![
        NoticeView::Plain(entry_line(component, entry, shown_level(entry))),
    ]);
}

proof fn lemma_ascii_width(c: char)
    requires
        c <= '\u{7f}',
    ensures
        width(c) == 1,
{
}

proof fn lemma_ascii_bytes(s: Seq<char>, at: int)
    requires
        0 <= at <= s.len(),
        forall|i: int| 0 <= i < at ==> #[trigger] s[i] <= '\u{7f}',
    ensures
        char_at_byte(s, at) == Some(at),
    decreases at,
{
    if at > 0 {
        assert(s[0] <= '\u{7f}');
        lemma_ascii_width(s[0]);
        assert forall|i: int| 0 <= i < at - 1 implies #[trigger] s.skip(1)[i] <= '\u{7f}' by {
            assert(s.skip(1)[i] == s[i + 1]);
        }
        lemma_ascii_bytes(s.skip(1), at - 1);
    }
}

/// The time that is shown of a timestamp is its part behind the date: characters eleven to
/// eighteen, where the timestamp is written in ASCII that far.
pub proof fn law_times_are_the_time_of_day(date: Seq<char>, time: Seq<char>, rest: Seq<char>)
    requires
        date.len() == 11,
        time.len() == 8,
        forall|i: int| 0 <= i < date.len() ==> #[trigger] date[i] <= '\u{7f}',
        forall|i: int| 0 <= i < time.len() ==> #[trigger] time[i] <= '\u{7f}',
    ensures
        time_of(date + time + rest) == time,
{
    let s = date + time + rest;
    assert forall|i: int| 0 <= i < 19 implies #[trigger] s[i] <= '\u{7f}' by {
        if i < 11 {
            assert(s[i] == date[i]);
        } else {
            assert(s[i] == time[i - 11]);
        }
    }
    lemma_ascii_bytes(s, 11);
    lemma_ascii_bytes(s, 19);
    assert(s.subrange(11, 19) =~= time);
}

/// A line begins with the time of its entry, whatever follows.
pub proof fn law_lines_begin_with_the_time(component: LogTarget, entry: LogEntry, level: Seq<char>)
    ensures
        starts_with(entry_line(component, entry, level), time_of(entry.timestamp@) + " "@),
{
    let line = entry_line(component, entry, level);
    let head = time_of(entry.timestamp@) + " "@;
    match component {
        LogTarget::Backend => {
            law_texts_contain_their_parts(Seq::empty(), head, entry.message@);
        },
        LogTarget::Frontend => {
            let a = head + pad(level, 5);
            let b = a + "  ["@;
            let c = b + entry_user(entry);
            let d = c + " @ "@;
            let e = d + entry_path(entry);
            let f = e + "] "@;
            assert(line == f + entry.message@);
            assert(line.subrange(0, head.len() as int) =~= head);
        },
    }
}

/// A line ends with the message of its entry; behind the time, one of the backend says no
/// more.
pub proof fn law_lines_end_with_the_message(component: LogTarget, entry: LogEntry, level: Seq<char>)
    ensures
        ends_with(entry_line(component, entry, level), entry.message@),
        component is Backend ==> entry_line(component, entry, level).len() == time_of(
            entry.timestamp@,
        ).len() + 1 + entry.message@.len(),
{
    reveal_strlit(" ");
    match component {
        LogTarget::Backend => {
            law_texts_contain_their_parts(
                time_of(entry.timestamp@) + " "@,
                entry.message@,
                Seq::empty(),
            );
        },
        LogTarget::Frontend => {
            law_texts_contain_their_parts(
                time_of(entry.timestamp@) + " "@ + pad(level, 5) + "  ["@ + entry_user(entry)
                    + " @ "@ + entry_path(entry) + "] "@,
                entry.message@,
                Seq::empty(),
            );
        },
    }
}

/// A line of the frontend says, between the time and the message, how grave the entry is, who
/// was there and where: by name where there is one, as `anon` for a guest and as `-` for
/// nobody known; and at the path of the page, or at the root where no page is known.
pub proof fn law_frontend_lines_say_who_and_where(entry: LogEntry, level: Seq<char>)
    ensures
        ({
            let line = entry_line(LogTarget::Frontend, entry, level);
            let head = time_of(entry.timestamp@) + " "@;
            let middle = line.subrange(head.len() as int, line.len() - entry.message@.len());
            let who = match entry.user_name {
                Some(name) => name@,
                None => if entry.user_is_anon == Some(true) {
                    "anon"@
                } else {
                    "-"@
                },
            };
            let place = match entry.source_url {
                Some(url) => path_of(url@),
                None => "/"@,
            };
            middle == pad(level, 5) + "  ["@ + who + " @ "@ + place + "] "@
        }),
{
    let line = entry_line(LogTarget::Frontend, entry, level);
    let head = time_of(entry.timestamp@) + " "@;
    let rest = pad(level, 5) + "  ["@ + entry_user(entry) + " @ "@ + entry_path(entry) + "] "@;
    assert(line =~= head + rest + entry.message@);
    assert(line.subrange(head.len() as int, line.len() - entry.message@.len()) =~= rest);
}

/// Scheme and host go from an address, and its path stays; an address without a path is
/// that of the root.
pub proof fn law_paths_begin_behind_the_host(host: Seq<char>, path: Seq<char>, scheme: Seq<char>)
    requires
        !host.contains('/'),
        !host.contains(':'),
        !scheme.contains('/'),
        !scheme.contains(':'),
        path.len() > 0 ==> path[0] == '/',
    ensures
        path_of(scheme + "://"@ + host + path) == if path.len() == 0 {
            "/"@
        } else {
            path
        },
{
    reveal_strlit("://");
    reveal_strlit("/");
    let url = scheme + "://"@ + host + path;
    let rest = host + path;
    assert forall|i: int| 0 <= i < scheme.len() implies scheme[i] != ':' by {
        assert(scheme.contains(scheme[i]));
    }
    assert forall|i: int| 0 <= i < host.len() implies host[i] != '/' by {
        assert(host.contains(host[i]));
    }
    lemma_find_from(url, "://"@, 0);
    let n = scheme.len() as int;
    assert(url.subrange(n, n + 3) =~= "://"@);
    assert(occurs_at(url, "://"@, n));
    assert forall|i: int| 0 <= i < n implies !#[trigger] occurs_at(url, "://"@, i) by {
        if occurs_at(url, "://"@, i) {
            assert(url.subrange(i, i + 3)[0] == scheme[i]);
        }
    }
    assert(find(url, "://"@) == Some(n));
    assert(url.skip(n + 3) =~= rest);
    lemma_find_from(rest, "/"@, 0);
    let m = host.len() as int;
    assert forall|i: int| 0 <= i < m implies !#[trigger] occurs_at(rest, "/"@, i) by {
        if occurs_at(rest, "/"@, i) {
            assert(rest.subrange(i, i + 1)[0] == host[i]);
        }
    }
    if path.len() > 0 {
        assert(rest.subrange(m, m + 1) =~= "/"@);
        assert(occurs_at(rest, "/"@, m));
        assert(find(rest, "/"@) == Some(m));
        assert(rest.skip(m) =~= path);
    } else {
        assert(rest =~= host);
        assert(find(rest, "/"@) is None);
    }
}

// ---------------------------------------------------------------------------
// Laws of environment variables
// ---------------------------------------------------------------------------

/// Variables are shown one to a line, in their order, each as its name, an equals sign and
/// its value.
pub proof fn law_variables_are_shown_one_by_one(
    above: Seq<(Seq<char>, Seq<char>)>,
    below: Seq<(Seq<char>, Seq<char>)>,
    name: Seq<char>,
    value: Seq<char>,
    mark: Seq<char>,
)
    ensures
        var_lines(above + below, mark) == var_lines(above, mark) + var_lines(below, mark),
        var_lines(seq![(name, value)], mark) == seq![
            NoticeView::Progress(name + "="@ + value + mark),
        ],
        var_lines(Seq::empty(), mark) == Seq::<NoticeView>::empty(),
{
    assert(var_lines(above + below, mark) =~= var_lines(above, mark) + var_lines(below, mark));
    assert(var_lines(seq![(name, value)], mark) =~= seq![
        NoticeView::Progress(name + "="@ + value + mark),
    ]);
    assert(var_lines(Seq::empty(), mark) =~= Seq::<NoticeView>::empty());
}

/// A project's own variables are listed first and the platform's behind them, marked as such;
/// where there are neither, that is said.
pub proof fn law_own_variables_come_first(
    own: Seq<(Seq<char>, Seq<char>)>,
    system: Seq<(Seq<char>, Seq<char>)>,
    i: int,
)
    ensures
        own.len() + system.len() > 0 ==> vars_shown(own, system).len() == own.len() + system.len(),
        0 <= i < own.len() ==> vars_shown(own, system)[i] == NoticeView::Progress(
            own[i].0 + "="@ + own[i].1 + ""@,
        ),
        0 <= i < system.len() ==> vars_shown(own, system)[own.len() + i] == NoticeView::Progress(
            system[i].0 + "="@ + system[i].1 + " [system]"@,
        ),
        own.len() == 0 && system.len() == 0 ==> vars_shown(own, system) == seq![
            NoticeView::Progress("No environment variables set."@),
        ],
{
}

/// A project is deleted without a question only where that was asked for; else only where its
/// very slug was typed, with nothing but white space around it.
pub proof fn law_no_deletion_unasked(
    slug: Seq<char>,
    before: Seq<char>,
    typed: Seq<char>,
    after: Seq<char>,
)
    requires
        forall|i: int| 0 <= i < before.len() ==> white(#[trigger] before[i]),
        forall|i: int| 0 <= i < after.len() ==> white(#[trigger] after[i]),
        typed.len() > 0 ==> !white(typed[0]) && !white(typed.last()),
    ensures
        may_delete(slug, true, None),
        may_delete(slug, true, Some(before + typed + after)),
        !may_delete(slug, false, None),
        may_delete(slug, false, Some(before + typed + after)) <==> typed == slug,
{
    law_trimming_keeps_the_middle(before, typed, after);
}

/// Only a page that is not found is refused; any other reply is read.
pub proof fn law_only_missing_pages_are_refused(status: u16)
    ensures
        no_such_page(status) <==> status == 404,
{
}

/// A project that is named is the one that is worked on, whatever the configuration says or
/// whether there is one; without a name it is the configuration's, which must then be there.
pub proof fn law_named_projects_count(project: String, file: ConfigFile)
    ensures
        chosen_project(Some(project), file) == Ok::<Seq<char>, FaultView>(project@),
        chosen_project(None, file) is Ok <==> file_outcome(file) is Ok,
        file_outcome(file) is Ok ==> chosen_project(None, file) == Ok::<Seq<char>, FaultView>(
            file_outcome(file)->Ok_0.project,
        ),
        file_outcome(file) is Err ==> chosen_project(None, file) == Err::<Seq<char>, FaultView>(
            file_outcome(file)->Err_0,
        ),
{
}

/// A deploy of a named project keeps the title and the settings of the configuration, and
/// makes do without one; without a name the configuration is used as it is.
pub proof fn law_named_deploys_keep_the_rest(project: String, file: ConfigFile)
    ensures
        chosen_config(None, file) == file_outcome(file),
        chosen_config(Some(project), file) is Ok,
        chosen_config(Some(project), file)->Ok_0.project == project@,
        file_outcome(file) is Ok ==> chosen_config(Some(project), file)->Ok_0.title
            == file_outcome(file)->Ok_0.title && chosen_config(
            Some(project),
            file,
        )->Ok_0.auto_commit == file_outcome(file)->Ok_0.auto_commit,
        file_outcome(file) is Err ==> chosen_config(Some(project), file)->Ok_0.title is None
            && !chosen_config(Some(project), file)->Ok_0.auto_commit,
{
}

/// A character takes one byte up to 127, two up to 2047, three up to 65535 and four above.
pub proof fn law_how_wide_characters_are(c: char)
    ensures
        width(c) == 1 <==> (c as int) <= 127,
        width(c) == 2 <==> 128 <= (c as int) <= 2047,
        width(c) == 3 <==> 2048 <= (c as int) <= 65535,
        width(c) == 4 <==> 65536 <= (c as int),
{
}

} // verus!
