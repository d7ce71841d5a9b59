//! What can be asked for on the command line.

use vstd::prelude::*;

use crate::printer::Printer;

verus! {

/// What is asked for.
#[derive(Debug)]
pub enum Command {
    /// Log in: with a browser, or as a new guest.
    Login { guest: bool },
    /// Show who is logged in.
    Whoami,
    /// Update the command line, to the latest release or to one that is named.
    Update { tag: Option<String> },
    /// Query a project's database.
    Sql { query: String, environment: Environment, project: Option<String> },
    /// Deploy a project.
    Deploy {
        environment: Environment,
        project: Option<String>,
        /// The message of the commit, and the label of the deploy.
        message: Option<String>,
        /// Warm the build cache; skipped where a deploy has succeeded already.
        baseline: bool,
        /// Create the project without asking where it does not exist.
        create: bool,
        /// Confirm that the project's database may be removed.
        confirm_database_removal: bool,
        /// Do not wait for the deployment to end.
        detach: bool,
        /// Write machine-readable lines to standard output.
        json: bool,
    },
    /// Show a project's logs.
    Logs { component: LogTarget, environment: Environment, project: Option<String> },
    /// Work on a project's environment variables.
    Env { action: EnvAction },
    /// Work on a project as a whole.
    Project { action: ProjectAction },
    /// Start a project from the template.
    Scaffold { name: Option<String>, title: Option<String>, target: Option<String> },
    /// Show a page of the documentation, or all of it.
    Docs { page: Option<String>, full: bool },
    /// Log out.
    Logout,
}

/// What to do with a project as a whole.
#[derive(Debug)]
pub enum ProjectAction {
    /// Delete it, for good; `yes` skips the question.
    Delete { slug: String, yes: bool },
}

/// What to do with environment variables.
#[derive(Debug)]
pub enum EnvAction {
    Assign { pairs: Vec<String>, environment: Environment, project: Option<String> },
    List { environment: Environment, project: Option<String> },
    Delete { key: String, environment: Environment, project: Option<String> },
}

/// Whether a command speaks to a program.
pub open spec fn speaks_json(command: Command) -> bool {
    command matches Command::Deploy { json, .. } && json
}

/// How the output of a command is shown.
pub fn printer_for(verbose: bool, timestamps: bool, command: &Command) -> (r: Printer)
    ensures
        r.verbose == verbose,
        r.timestamps == timestamps,
        r.json == (command matches Command::Deploy { json, .. } && *json),
        r.json == speaks_json(*command),
{
    let json = match command {
        Command::Deploy { json, .. } => *json,
        _ => false,
    };
    Printer { verbose, timestamps, json }
}

/// Where a project runs.
#[derive(Clone, Copy, Debug, PartialEq, Eq, Structural)]
pub enum Environment {
    Dev,
    Prod,
}

/// The name of an environment.
pub open spec fn environment_name(environment: Environment) -> Seq<char> {
    match environment {
        Environment::Dev => "dev"@,
        Environment::Prod => "prod"@,
    }
}

impl Default for Environment {
    /// A command works on the development environment unless another is named.
    fn default() -> (r: Self)
        ensures
            r == Environment::Dev,
    {
        Environment::Dev
    }
}

impl Environment {
    /// The name of the environment.
    pub fn as_str(self) -> (r: &'static str)
        ensures
            r@ == environment_name(self),
    {
        match self {
            Environment::Dev => "dev",
            Environment::Prod => "prod",
        }
    }
}

/// Whose log to read.
#[derive(Clone, Copy, Debug, PartialEq, Eq, Structural)]
pub enum LogTarget {
    Backend,
    Frontend,
}

/// The name of a log's source.
pub open spec fn source_name(target: LogTarget) -> Seq<char> {
    match target {
        LogTarget::Backend => "backend"@,
        LogTarget::Frontend => "frontend"@,
    }
}

impl LogTarget {
    /// The name of the log's source.
    pub fn as_str(self) -> (r: &'static str)
        ensures
            r@ == source_name(self),
    {
        match self {
            LogTarget::Backend => "backend",
            LogTarget::Frontend => "frontend",
        }
    }
}

/// Environments, and sources of logs, are told apart by their names, which are their own in
/// lower case.
pub proof fn law_names_tell_apart(a: Environment, b: Environment, x: LogTarget, y: LogTarget)
    ensures
        environment_name(a) == environment_name(b) <==> a == b,
        source_name(x) == source_name(y) <==> x == y,
        environment_name(a) == "prod"@ <==> a is Prod,
        environment_name(a) == "dev"@ <==> a is Dev,
        source_name(x) == "frontend"@ <==> x is Frontend,
        source_name(x) == "backend"@ <==> x is Backend,
{
    reveal_strlit("dev");
    reveal_strlit("prod");
    reveal_strlit("frontend");
    reveal_strlit("backend");
    assert("dev"@.len() == 3 && "prod"@.len() == 4);
    assert("frontend"@.len() == 8 && "backend"@.len() == 7);
}

/// Only a deploy can speak to a program, and does where that was asked for.
pub proof fn law_only_deploys_speak_to_programs(command: Command)
    ensures
        !(command is Deploy) ==> !speaks_json(command),
        command is Deploy ==> speaks_json(command) == command->Deploy_json,
{
}

} // verus!
