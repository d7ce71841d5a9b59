//! The platform's HTTP interface: where each request goes, when it is sent again, and what
//! the status of a reply means.

use vstd::prelude::*;
use vstd::string::*;

use crate::text::{ends_with, law_texts_contain_their_parts, same, starts_with};

verus! {

/// A session with the platform.
#[derive(Debug)]
pub struct PlatformClient {
    pub token: String,
    pub origin: String,
}

/// A pipeline that was started.
#[derive(Debug)]
pub struct DeployPipeline {
    pub pipeline_run_id: i64,
}

/// A line of a component's log.
#[derive(Debug)]
pub struct LogEntry {
    pub timestamp: String,
    pub level: Option<String>,
    pub message: String,
    pub source_url: Option<String>,
    pub user_name: Option<String>,
    pub user_is_anon: Option<bool>,
}

/// The address of a project.
pub open spec fn project_address(origin: Seq<char>, project: Seq<char>) -> Seq<char> {
    origin + "/projects/"@ + project
}

/// `path` of a project in an environment.
pub open spec fn scoped_address(
    origin: Seq<char>,
    project: Seq<char>,
    path: Seq<char>,
    environment: Seq<char>,
) -> Seq<char> {
    project_address(origin, project) + path + "?environment="@ + environment
}

impl PlatformClient {
    /// The address of a project.
    pub fn project_url(&self, project: &str) -> (r: String)
        ensures
            r@ == project_address(self.origin@, project@),
    {
        self.origin.clone().concat("/projects/").concat(project)
    }

    fn scoped_url(&self, project: &str, path: &str, environment: &str) -> (r: String)
        ensures
            r@ == scoped_address(self.origin@, project@, path@, environment@),
    {
        self.project_url(project).concat(path).concat("?environment=").concat(environment)
    }

    /// Where the database of a project is queried.
    pub fn query_url(&self, project: &str, environment: &str) -> (r: String)
        ensures
            r@ == scoped_address(self.origin@, project@, "/database/query"@, environment@),
    {
        self.scoped_url(project, "/database/query", environment)
    }

    /// Where a deploy is started.
    pub fn deploys_url(&self, project: &str, environment: &str) -> (r: String)
        ensures
            r@ == scoped_address(self.origin@, project@, "/deploys"@, environment@),
    {
        self.scoped_url(project, "/deploys", environment)
    }

    /// Where a baseline deploy is started.
    pub fn baseline_url(&self, project: &str, environment: &str) -> (r: String)
        ensures
            r@ == scoped_address(self.origin@, project@, "/deploys/baseline"@, environment@),
    {
        self.scoped_url(project, "/deploys/baseline", environment)
    }

    /// Where a migration is started. Migrations are only ever run in development.
    pub fn migrations_url(&self, project: &str) -> (r: String)
        ensures
            r@ == scoped_address(self.origin@, project@, "/migrations"@, "dev"@),
    {
        self.scoped_url(project, "/migrations", "dev")
    }

    /// Where the newest log lines of a component are read.
    pub fn logs_url(&self, project: &str, source: &str, environment: &str) -> (r: String)
        ensures
            r@ == project_address(self.origin@, project@) + "/logs?source="@ + source@
                + "&environment="@ + environment@ + "&limit=1000"@,
    {
        self.project_url(project).concat("/logs?source=").concat(source).concat(
            "&environment=",
        ).concat(environment).concat("&limit=1000")
    }

    /// Where the environment variables of a project are read and set.
    pub fn env_url(&self, project: &str, environment: &str) -> (r: String)
        ensures
            r@ == scoped_address(self.origin@, project@, "/env"@, environment@),
    {
        self.scoped_url(project, "/env", environment)
    }

    /// Where one environment variable of a project is deleted.
    pub fn env_key_url(&self, project: &str, key: &str, environment: &str) -> (r: String)
        ensures
            r@ == scoped_address(self.origin@, project@, "/env/"@ + key@, environment@),
    {
        let path = "/env/".to_string().concat(key);
        self.scoped_url(project, path.as_str(), environment)
    }

    /// Where it is asked whether a slug is free.
    pub fn availability_url(&self, slug: &str) -> (r: String)
        ensures
            r@ == project_address(self.origin@, slug@) + "/availability"@,
    {
        self.project_url(slug).concat("/availability")
    }

    /// Where the title of a project is set.
    pub fn game_profile_url(&self, slug: &str) -> (r: String)
        ensures
            r@ == project_address(self.origin@, slug@) + "/game-profile"@,
    {
        self.project_url(slug).concat("/game-profile")
    }

    /// Where projects are created.
    pub fn projects_url(&self) -> (r: String)
        ensures
            r@ == self.origin@ + "/projects"@,
    {
        self.origin.clone().concat("/projects")
    }

    /// Where the events of a pipeline are streamed.
    pub fn stream_url(&self, pipeline_run_id: i64) -> (r: String)
        ensures
            r@ == self.origin@ + "/pipelines/"@ + crate::numbers::signed_decimal(
                pipeline_run_id as int,
            ) + "/stream"@,
    {
        self.origin.clone().concat("/pipelines/").concat(
            crate::numbers::signed_text(pipeline_run_id).as_str(),
        ).concat("/stream")
    }
}

// ---------------------------------------------------------------------------
// Sending again
// ---------------------------------------------------------------------------

/// How many times a request that may be repeated is sent at most.
pub const MAX_SENDS: u32 = 3;

/// What came of sending a request.
#[derive(Clone, Copy, Debug, PartialEq, Eq, Structural)]
pub enum Sent {
    /// A reply with this status.
    Replied(u16),
    /// No reply: the connection failed.
    Broken,
}

/// What to do next.
#[derive(Clone, Copy, Debug, PartialEq, Eq, Structural)]
pub enum AfterSend {
    /// Hand the reply on.
    Accept,
    /// Send the request again after this pause, in milliseconds.
    SendAgain { pause_ms: u64 },
    /// Hand the connection's error on.
    Fail,
}

/// Whether a status blames the server.
pub open spec fn server_error(status: u16) -> bool {
    500 <= status <= 599
}

/// What to do after send number `attempt`, counted from zero.
pub open spec fn decision(attempt: int, sent: Sent) -> AfterSend {
    let faulty = match sent {
        Sent::Replied(status) => server_error(status),
        Sent::Broken => true,
    };
    if faulty && attempt + 1 < MAX_SENDS {
        AfterSend::SendAgain { pause_ms: (250 * (attempt + 1)) as u64 }
    } else if sent is Broken {
        AfterSend::Fail
    } else {
        AfterSend::Accept
    }
}

/// What to do after send number `attempt`, counted from zero. Sending again is safe where
/// the platform recognises a repeated submission by its id.
pub fn after_send(attempt: u32, sent: Sent) -> (r: AfterSend)
    requires
        attempt < MAX_SENDS,
    ensures
        r == decision(attempt as int, sent),
{
    let faulty = match sent {
        Sent::Replied(status) => 500 <= status && status <= 599,
        Sent::Broken => true,
    };
    if faulty && attempt + 1 < MAX_SENDS {
        return AfterSend::SendAgain { pause_ms: 250 * (attempt as u64 + 1) };
    }
    match sent {
        Sent::Broken => AfterSend::Fail,
        Sent::Replied(_) => AfterSend::Accept,
    }
}

/// How often a request is sent when its sends, from number `attempt` on, come to `outcomes`.
pub open spec fn sends(attempt: int, outcomes: Seq<Sent>) -> int
    decreases outcomes.len(),
{
    if outcomes.len() == 0 {
        0
    } else if decision(attempt, outcomes[0]) is SendAgain {
        1 + sends(attempt + 1, outcomes.skip(1))
    } else {
        1
    }
}

/// However the sends come out, a request is sent at most `MAX_SENDS` times.
pub proof fn law_at_most_three_sends(outcomes: Seq<Sent>)
    ensures
        sends(0, outcomes) <= MAX_SENDS,
{
    lemma_sends(0, outcomes);
}

proof fn lemma_sends(attempt: int, outcomes: Seq<Sent>)
    requires
        0 <= attempt < MAX_SENDS,
    ensures
        sends(attempt, outcomes) <= MAX_SENDS - attempt,
    decreases outcomes.len(),
{
    if outcomes.len() > 0 && decision(attempt, outcomes[0]) is SendAgain {
        lemma_sends(attempt + 1, outcomes.skip(1));
    }
}

/// A reply that does not blame the server is handed on as it came, and so is the last one
/// whatever it says.
pub proof fn law_replies_are_kept(attempt: int, status: u16)
    requires
        0 <= attempt < MAX_SENDS,
        !server_error(status) || attempt == MAX_SENDS - 1,
    ensures
        decision(attempt, Sent::Replied(status)) == AfterSend::Accept,
{
}

// ---------------------------------------------------------------------------
// Replies
// ---------------------------------------------------------------------------

/// Whether a status says that a baseline deploy was skipped.
pub open spec fn says_skipped(status: u16) -> bool {
    status == 200
}

/// Whether a status says that a project was created.
pub open spec fn says_created(status: u16) -> bool {
    status == 201
}

/// What a status says of a project that was asked for.
pub open spec fn project_reply(status: u16) -> ProjectReply {
    if status == 404 {
        ProjectReply::Missing
    } else if status == 200 {
        ProjectReply::Found
    } else {
        ProjectReply::Failed
    }
}

/// What a status says of a project that is to be deleted: whether the deletion has started;
/// `None` where the body describes an error.
pub open spec fn deletion_started(status: u16) -> Option<bool> {
    if status == 202 {
        Some(true)
    } else if status == 404 {
        Some(false)
    } else {
        None
    }
}

/// Whether the platform skipped a baseline deploy, because the project has a deploy that
/// succeeded.
pub fn baseline_skipped(status: u16) -> (r: bool)
    ensures
        r == says_skipped(status),
        r == (status == 200),
{
    status == 200
}

/// What a request for a project came to.
#[derive(Clone, Copy, Debug, PartialEq, Eq, Structural)]
pub enum ProjectReply {
    /// The project does not exist.
    Missing,
    /// The body describes the project.
    Found,
    /// The body describes an error.
    Failed,
}

/// What a request for a project came to.
pub fn get_project(status: u16) -> (r: ProjectReply)
    ensures
        r == project_reply(status),
        r == if status == 404 {
            ProjectReply::Missing
        } else if status == 200 {
            ProjectReply::Found
        } else {
            ProjectReply::Failed
        },
{
    if status == 404 {
        ProjectReply::Missing
    } else if status == 200 {
        ProjectReply::Found
    } else {
        ProjectReply::Failed
    }
}

/// Whether a project was created.
pub fn create_project(status: u16) -> (r: bool)
    ensures
        r == says_created(status),
        r == (status == 201),
{
    status == 201
}

/// That the deletion of a project is on its way.
#[derive(Clone, Copy, Debug, PartialEq, Eq, Structural)]
pub enum ProjectDeleteOutcome {
    Started,
}

/// What a request to delete a project came to: `None` where the body describes an error.
pub fn delete_project(slug: &str, status: u16) -> (r: Option<Result<ProjectDeleteOutcome, String>>)
    ensures
        match r {
            Some(Ok(outcome)) => status == 202 && outcome == ProjectDeleteOutcome::Started,
            Some(Err(m)) => status == 404 && m@ == "project '"@ + slug@ + "' not found"@,
            None => status != 202 && status != 404,
        },
        match r {
            Some(outcome) => deletion_started(status) == Some(outcome is Ok),
            None => deletion_started(status) is None,
        },
{
    if status == 202 {
        Some(Ok(ProjectDeleteOutcome::Started))
    } else if status == 404 {
        Some(Err("project '".to_string().concat(slug).concat("' not found")))
    } else {
        None
    }
}

/// Whether a slug can be had.
#[derive(Clone, Copy, Debug, PartialEq, Eq, Structural)]
pub enum SlugAvailability {
    Free,
    TakenByYou,
    TakenByOther,
    Deleting,
}

/// What the platform says of a slug.
pub open spec fn availability(status: Seq<char>, owned_by_you: bool) -> Option<SlugAvailability> {
    if status == "free"@ {
        Some(SlugAvailability::Free)
    } else if status == "taken"@ {
        Some(
            if owned_by_you {
                SlugAvailability::TakenByYou
            } else {
                SlugAvailability::TakenByOther
            },
        )
    } else if status == "deleting"@ {
        Some(SlugAvailability::Deleting)
    } else {
        None
    }
}

/// What the platform says of a slug.
pub fn slug_availability(status: &str, owned_by_you: bool) -> (r: Result<SlugAvailability, String>)
    ensures
        match r {
            Ok(found) => availability(status@, owned_by_you) == Some(found),
            Err(m) => availability(status@, owned_by_you) is None && m@
                == "unknown availability status '"@ + status@ + "'"@,
        },
{
    if same(status, "free") {
        Ok(SlugAvailability::Free)
    } else if same(status, "taken") {
        if owned_by_you {
            Ok(SlugAvailability::TakenByYou)
        } else {
            Ok(SlugAvailability::TakenByOther)
        }
    } else if same(status, "deleting") {
        Ok(SlugAvailability::Deleting)
    } else {
        Err("unknown availability status '".to_string().concat(status).concat("'"))
    }
}

// ---------------------------------------------------------------------------
// What was attempted
// ---------------------------------------------------------------------------

/// `before`, the project in quotes and the environment in brackets, and `after`.
pub open spec fn attempt_text(
    before: Seq<char>,
    project: Seq<char>,
    environment: Seq<char>,
    after: Seq<char>,
) -> Seq<char> {
    before + " project '"@ + project + "' ("@ + environment + ")"@ + after
}

fn attempted(before: &str, project: &str, environment: &str, after: &str) -> (r: String)
    ensures
        r@ == attempt_text(before@, project@, environment@, after@),
{
    before.to_string().concat(" project '").concat(project).concat("' (").concat(
        environment,
    ).concat(")").concat(after)
}

/// What failed, when a query did.
pub fn query_attempt(project: &str, environment: &str) -> (r: String)
    ensures
        r@ == attempt_text("query against"@, project@, environment@, " failed"@),
{
    attempted("query against", project, environment, " failed")
}

/// What failed, when a deploy did not start.
pub fn deploy_attempt_text(project: &str, environment: &str, baseline: bool) -> (r: String)
    ensures
        r@ == attempt_text(
            if baseline {
                "failed to start baseline deploy for"@
            } else {
                "failed to start deploy for"@
            },
            project@,
            environment@,
            ""@,
        ),
{
    if baseline {
        attempted("failed to start baseline deploy for", project, environment, "")
    } else {
        attempted("failed to start deploy for", project, environment, "")
    }
}

/// What failed, when a migration did not start.
pub fn migration_attempt(project: &str) -> (r: String)
    ensures
        r@ == "failed to start migration for project '"@ + project@ + "'"@,
{
    "failed to start migration for project '".to_string().concat(project).concat("'")
}

/// What failed, when logs could not be read.
pub fn logs_attempt(project: &str, source: &str, environment: &str) -> (r: String)
    ensures
        r@ == attempt_text(
            "failed to fetch "@ + source@ + " logs for"@,
            project@,
            environment@,
            ""@,
        ),
{
    let before = "failed to fetch ".to_string().concat(source).concat(" logs for");
    attempted(before.as_str(), project, environment, "")
}

/// What failed, when environment variables could not be set.
pub fn set_env_attempt(project: &str, environment: &str) -> (r: String)
    ensures
        r@ == attempt_text("failed to set env vars for"@, project@, environment@, ""@),
{
    attempted("failed to set env vars for", project, environment, "")
}

/// What failed, when environment variables could not be listed.
pub fn list_env_attempt(project: &str, environment: &str) -> (r: String)
    ensures
        r@ == attempt_text("failed to list env vars for"@, project@, environment@, ""@),
{
    attempted("failed to list env vars for", project, environment, "")
}

/// What failed, and why, when an environment variable could not be deleted.
pub fn delete_env_failure(project: &str, key: &str, environment: &str, error: &str) -> (r: String)
    ensures
        r@ == attempt_text(
            "failed to delete env var "@ + key@ + " for"@,
            project@,
            environment@,
            ": "@ + error@,
        ),
{
    let before = "failed to delete env var ".to_string().concat(key).concat(" for");
    let after = ": ".to_string().concat(error);
    attempted(before.as_str(), project, environment, after.as_str())
}

// ---------------------------------------------------------------------------
// Laws
// ---------------------------------------------------------------------------

/// An address begins with the origin and the project and ends with the environment, so that
/// no request for one environment goes to another.
pub proof fn law_addresses_name_their_environment(
    origin: Seq<char>,
    project: Seq<char>,
    path: Seq<char>,
    environment: Seq<char>,
    other: Seq<char>,
)
    ensures
        starts_with(
            scoped_address(origin, project, path, environment),
            origin + "/projects/"@ + project + path,
        ),
        ends_with(
            scoped_address(origin, project, path, environment),
            "?environment="@ + environment,
        ),
        scoped_address(origin, project, path, environment) == scoped_address(
            origin,
            project,
            path,
            other,
        ) ==> environment == other,
        project_address(origin, project) == origin + "/projects/"@ + project,
{
    let head = origin + "/projects/"@ + project + path;
    let mark = "?environment="@;
    let address = scoped_address(origin, project, path, environment);
    law_texts_contain_their_parts(Seq::empty(), head, mark + environment);
    law_texts_contain_their_parts(head, mark + environment, Seq::empty());
    assert(head + (mark + environment) =~= address);
    let k = (head.len() + mark.len()) as int;
    assert(address.skip(k) =~= environment);
    assert(scoped_address(origin, project, path, other).skip(k) =~= other);
}

/// Statuses that blame the server are those with five hundred and something.
pub proof fn law_which_statuses_blame_the_server(status: u16)
    requires
        100 <= status <= 999,
    ensures
        server_error(status) <==> status / 100 == 5,
{
}

/// A send that failed is made again, after a pause that grows by a quarter of a second each
/// time, until it was the last: then a broken connection is a failure. No other send is made
/// again.
pub proof fn law_failed_sends_are_made_again(attempt: int, status: u16)
    requires
        0 <= attempt < MAX_SENDS,
    ensures
        attempt < MAX_SENDS - 1 ==> decision(attempt, Sent::Broken) == (AfterSend::SendAgain {
            pause_ms: (250 * (attempt + 1)) as u64,
        }),
        attempt < MAX_SENDS - 1 && server_error(status) ==> decision(
            attempt,
            Sent::Replied(status),
        ) == decision(attempt, Sent::Broken),
        attempt == MAX_SENDS - 1 ==> decision(attempt, Sent::Broken) == AfterSend::Fail,
        !server_error(status) ==> decision(attempt, Sent::Replied(status)) == AfterSend::Accept,
        !(decision(attempt, Sent::Replied(status)) is Fail),
        !(decision(attempt, Sent::Broken) is Accept),
        MAX_SENDS == 3,
{
}

/// What each status means: a project is there only with 200 and missing only with 404, it
/// was created only with 201, its deletion is on its way only with 202, and a baseline deploy
/// was skipped only with 200.
pub proof fn law_what_statuses_mean(status: u16)
    ensures
        project_reply(status) is Found <==> status == 200,
        project_reply(status) is Missing <==> status == 404,
        says_created(status) <==> status == 201,
        deletion_started(status) == Some(true) <==> status == 202,
        deletion_started(status) == Some(false) <==> status == 404,
        says_skipped(status) <==> status == 200,
{
}

/// A slug can be had only where the platform says that it is free; whose it is decides only
/// where it is taken.
pub proof fn law_which_slugs_can_be_had(status: Seq<char>, owned: bool)
    ensures
        availability(status, owned) == Some(SlugAvailability::Free) <==> status == "free"@,
        availability(status, owned) == Some(SlugAvailability::TakenByYou) <==> status == "taken"@
            && owned,
        availability(status, owned) == Some(SlugAvailability::TakenByOther) <==> status == "taken"@
            && !owned,
        availability(status, owned) == Some(SlugAvailability::Deleting) <==> status == "deleting"@,
{
    reveal_strlit("free");
    reveal_strlit("taken");
    reveal_strlit("deleting");
    assert("free"@.len() == 4 && "taken"@.len() == 5 && "deleting"@.len() == 8);
}

/// What was attempted names the project and the environment.
pub proof fn law_attempts_name_project_and_environment(
    before: Seq<char>,
    project: Seq<char>,
    environment: Seq<char>,
    after: Seq<char>,
)
    ensures
        starts_with(
            attempt_text(before, project, environment, after),
            before + " project '"@ + project + "' ("@ + environment + ")"@,
        ),
        ends_with(attempt_text(before, project, environment, after), after),
{
    let head = before + " project '"@ + project + "' ("@ + environment + ")"@;
    law_texts_contain_their_parts(Seq::empty(), head, after);
    law_texts_contain_their_parts(head, after, Seq::empty());
}

} // verus!
