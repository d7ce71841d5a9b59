//! The project's `gbandit.jsonc`, and the origins that the command line talks to.

use vstd::prelude::*;
use vstd::string::*;

use crate::fault::{caused, plain, Fault, FaultView};
use crate::nesting::{nesting, nesting_of};
use crate::outside::{
    jsonc_value, no_deeper, parse_jsonc, tree_of, value_tree, Json, MAX_NESTING,
};
use crate::text::{
    before_suffix, ends_with, law_texts_contain_their_parts, opt_text, same, starts_with,
};

verus! {

/// The fields of `gbandit.jsonc` that the command line itself uses. The platform owns the
/// schema and checks the rest, so that unknown fields are passed over.
#[derive(Debug)]
pub struct ProjectConfig {
    pub project: String,
    /// The display title. Where there is one, a deploy keeps the platform's title in step
    /// with it; where there is none, a deploy leaves the platform's title alone.
    pub title: Option<String>,
    pub local_dev: LocalDevConfig,
}

/// What a developer prefers on their own machine.
#[derive(Clone, Copy, Debug, PartialEq, Eq, Structural)]
pub struct LocalDevConfig {
    /// Whether a deploy commits a dirty tree and pushes to the linked remote, so that every
    /// deploy is a pushed commit. Off unless asked for, so that deploying a repository that
    /// was there before never commits or pushes unasked.
    pub auto_commit: bool,
}

/// A [`ProjectConfig`], as characters.
pub struct ConfigView {
    pub project: Seq<char>,
    pub title: Option<Seq<char>>,
    pub auto_commit: bool,
}

impl View for ProjectConfig {
    type V = ConfigView;

    open spec fn view(&self) -> ConfigView {
        ConfigView {
            project: self.project@,
            title: opt_text(self.title),
            auto_commit: self.local_dev.auto_commit,
        }
    }
}

/// Whether a deploy commits where the configuration does not say.
pub fn default_auto_commit() -> (r: bool)
    ensures
        !r,
{
    false
}

impl Default for LocalDevConfig {
    fn default() -> (r: Self)
        ensures
            !r.auto_commit,
    {
        LocalDevConfig { auto_commit: default_auto_commit() }
    }
}

/// Whether a deploy commits, for an agent or for a user whose configuration says `own`.
pub open spec fn commits(agent: bool, own: bool) -> bool {
    agent || own
}

impl ProjectConfig {
    /// Whether a deploy commits. An agent always does: what it writes deserves a history.
    pub fn auto_commit(&self, agent: bool) -> (r: bool)
        ensures
            r == (agent || self.local_dev.auto_commit),
            r == commits(agent, self@.auto_commit),
    {
        if agent {
            return true;
        }
        self.local_dev.auto_commit
    }
}

// ---------------------------------------------------------------------------
// Reading the file
// ---------------------------------------------------------------------------

/// The value of the first member with this name.
pub open spec fn member(object: Seq<(String, Json)>, name: Seq<char>) -> Option<Json>
    decreases object.len(),
{
    if object.len() == 0 {
        None
    } else if object[0].0@ == name {
        Some(object[0].1)
    } else {
        member(object.skip(1), name)
    }
}

/// The element at this position.
pub open spec fn element(array: Seq<Json>, i: int) -> Option<Json> {
    if 0 <= i < array.len() {
        Some(array[i])
    } else {
        None
    }
}

/// What a required text holds; `None` where it is no text or missing.
pub open spec fn required_text(value: Option<Json>) -> Option<Seq<char>> {
    match value {
        Some(Json::Text(s)) => Some(s@),
        _ => None,
    }
}

/// What an optional text holds; `None` where it is something else than a text.
pub open spec fn optional_text(value: Option<Json>) -> Option<Option<Seq<char>>> {
    match value {
        None => Some(None),
        Some(Json::Null) => Some(None),
        Some(Json::Text(s)) => Some(Some(s@)),
        _ => None,
    }
}

/// What `auto_commit` holds; `None` where it is no truth value.
pub open spec fn auto_commit_flag(value: Option<Json>) -> Option<bool> {
    match value {
        None => Some(false),
        Some(Json::Bool(b)) => Some(b),
        _ => None,
    }
}

/// What `local_dev` says of `auto_commit`; `None` where it is not of its form. Its fields
/// may also stand in order in an array.
pub open spec fn local_dev_flag(value: Option<Json>) -> Option<bool> {
    match value {
        None => Some(false),
        Some(Json::Object(o)) => auto_commit_flag(member(o@, "auto_commit"@)),
        Some(Json::Array(a)) => if a@.len() <= 1 {
            auto_commit_flag(element(a@, 0))
        } else {
            None
        },
        _ => None,
    }
}

/// A configuration from its three fields; `None` where one is not of its form.
pub open spec fn assembled(project: Option<Json>, title: Option<Json>, local_dev: Option<Json>) -> Option<
    ConfigView,
> {
    match (required_text(project), optional_text(title), local_dev_flag(local_dev)) {
        (Some(project), Some(title), Some(auto_commit)) => Some(
            ConfigView { project, title, auto_commit },
        ),
        _ => None,
    }
}

/// The configuration that a JSON value holds; `None` where it is not of its form. The
/// fields may also stand in order in an array.
pub open spec fn decoded(value: Json) -> Option<ConfigView> {
    match value {
        Json::Object(o) => assembled(
            member(o@, "project"@),
            member(o@, "title"@),
            member(o@, "local_dev"@),
        ),
        Json::Array(a) => if a@.len() <= 3 {
            assembled(element(a@, 0), element(a@, 1), element(a@, 2))
        } else {
            None
        },
        _ => None,
    }
}

fn find_member<'a>(object: &'a Vec<(String, Json)>, name: &str) -> (r: Option<&'a Json>)
    ensures
        match r {
            Some(value) => member(object@, name@) == Some(*value),
            None => member(object@, name@) is None,
        },
{
    let mut i: usize = 0;
    proof {
        assert(object@.skip(0) =~= object@);
    }
    while i < object.len()
        invariant
            i <= object@.len(),
            member(object@.skip(i as int), name@) == member(object@, name@),
        decreases object@.len() - i,
    {
        proof {
            assert(object@.skip(i as int).skip(1) =~= object@.skip(i + 1));
            assert(object@.skip(i as int)[0] == object@[i as int]);
        }
        if same(object[i].0.as_str(), name) {
            return Some(&object[i].1);
        }
        i = i + 1;
    }
    None
}

fn find_element(array: &Vec<Json>, i: usize) -> (r: Option<&Json>)
    ensures
        match r {
            Some(value) => element(array@, i as int) == Some(*value),
            None => element(array@, i as int) is None,
        },
{
    if i < array.len() {
        Some(&array[i])
    } else {
        None
    }
}

/// The value behind an optional reference.
pub open spec fn pointed(value: Option<&Json>) -> Option<Json> {
    match value {
        Some(value) => Some(*value),
        None => None,
    }
}

fn read_flag(value: Option<&Json>) -> (r: Option<bool>)
    ensures
        r == auto_commit_flag(pointed(value)),
{
    match value {
        None => Some(default_auto_commit()),
        Some(Json::Bool(b)) => Some(*b),
        _ => None,
    }
}

fn read_local_dev(value: Option<&Json>) -> (r: Option<bool>)
    ensures
        r == local_dev_flag(pointed(value)),
{
    match value {
        None => Some(LocalDevConfig::default().auto_commit),
        Some(Json::Object(o)) => read_flag(find_member(o, "auto_commit")),
        Some(Json::Array(a)) => if a.len() <= 1 {
            read_flag(find_element(a, 0))
        } else {
            None
        },
        _ => None,
    }
}

fn assemble(project: Option<&Json>, title: Option<&Json>, local_dev: Option<&Json>) -> (r: Option<
    ProjectConfig,
>)
    ensures
        match r {
            Some(config) => assembled(pointed(project), pointed(title), pointed(local_dev)) == Some(
                config@,
            ),
            None => assembled(pointed(project), pointed(title), pointed(local_dev)) is None,
        },
{
    let project = match project {
        Some(Json::Text(s)) => s.clone(),
        _ => {
            return None;
        },
    };
    let title = match title {
        None => None,
        Some(Json::Null) => None,
        Some(Json::Text(s)) => Some(s.clone()),
        _ => {
            return None;
        },
    };
    match read_local_dev(local_dev) {
        Some(auto_commit) => Some(
            ProjectConfig { project, title, local_dev: LocalDevConfig { auto_commit } },
        ),
        None => None,
    }
}

/// Reads a configuration from a JSON value; `None` where it is not of its form.
pub fn decode_config(value: &Json) -> (r: Option<ProjectConfig>)
    ensures
        match r {
            Some(config) => decoded(*value) == Some(config@),
            None => decoded(*value) is None,
        },
{
    match value {
        Json::Object(o) => assemble(
            find_member(o, "project"),
            find_member(o, "title"),
            find_member(o, "local_dev"),
        ),
        Json::Array(a) => if a.len() <= 3 {
            assemble(find_element(a, 0), find_element(a, 1), find_element(a, 2))
        } else {
            None
        },
        _ => None,
    }
}

/// What to say of a file that is JSONC but no configuration.
pub open spec fn schema_text() -> Seq<char> {
    "failed to read gbandit.jsonc — schema: https://docs.gbandit.com/deploy#gbandit-jsonc (or run: gbandit docs deploy)"@
}

/// What comes of reading a configuration from the value that a JSONC text holds. `refusal`
/// says what is wrong with the value where it is no configuration.
pub open spec fn config_outcome(
    value: Result<Option<Json>, Seq<char>>,
    refusal: Seq<char>,
) -> Result<ConfigView, FaultView> {
    match value {
        Err(message) => Err(plain("failed to parse gbandit.jsonc: "@ + message)),
        Ok(None) => Err(plain("gbandit.jsonc is empty"@)),
        Ok(Some(json)) => match decoded(json) {
            Some(config) => Ok(config),
            None => Err(caused(schema_text(), refusal)),
        },
    }
}

/// A result, as characters.
pub open spec fn config_result(r: Result<ProjectConfig, Fault>) -> Result<ConfigView, FaultView> {
    match r {
        Ok(config) => Ok(config@),
        Err(fault) => Err(fault@),
    }
}

/// What a JSONC text holds, down to its leaves.
pub open spec fn jsonc_tree(text: Seq<char>) -> Result<Option<Json>, Seq<char>> {
    match jsonc_value(text) {
        Ok(Some(value)) => Ok(Some(value_tree(value))),
        Ok(None) => Ok(None),
        Err(message) => Err(message),
    }
}

/// Whether a text is nested shallowly enough for the stack to hold its reading.
pub fn shallow(text: &str) -> (r: bool)
    ensures
        r == (nesting(text@) <= MAX_NESTING),
{
    nesting_of(text) <= MAX_NESTING
}

/// Reads a configuration from the value that a JSONC text holds. `refusal` says what is
/// wrong with the value where it is no configuration.
pub fn config_from(value: Result<Option<Json>, String>, refusal: &str) -> (r: Result<
    ProjectConfig,
    Fault,
>)
    ensures
        config_result(r) == config_outcome(
            match value {
                Ok(v) => Ok(v),
                Err(m) => Err(m@),
            },
            refusal@,
        ),
{
    match value {
        Err(message) => Err(
            Fault::plain("failed to parse gbandit.jsonc: ".to_string().concat(message.as_str())),
        ),
        Ok(None) => Err(Fault::plain("gbandit.jsonc is empty".to_string())),
        Ok(Some(json)) => match decode_config(&json) {
            Some(config) => Ok(config),
            None => Err(
                Fault::caused(
                    "failed to read gbandit.jsonc — schema: https://docs.gbandit.com/deploy#gbandit-jsonc (or run: gbandit docs deploy)",
                    refusal,
                ),
            ),
        },
    }
}

proof fn lemma_no_deeper_up(json: Json, few: nat, many: nat)
    requires
        no_deeper(json, few),
        few <= many,
    ensures
        no_deeper(json, many),
    decreases few,
{
    match json {
        Json::Array(a) => {
            assert forall|i: int| 0 <= i < a@.len() implies no_deeper(
                #[trigger] a@[i],
                (many - 1) as nat,
            ) by {
                lemma_no_deeper_up(a@[i], (few - 1) as nat, (many - 1) as nat);
            }
        },
        Json::Object(o) => {
            assert forall|i: int| 0 <= i < o@.len() implies no_deeper(
                (#[trigger] o@[i]).1,
                (many - 1) as nat,
            ) by {
                lemma_no_deeper_up(o@[i].1, (few - 1) as nat, (many - 1) as nat);
            }
        },
        _ => {},
    }
}

/// Reads the text of `gbandit.jsonc`. `refusal` says which of its fields is wrong, and how,
/// where it is JSONC but no configuration; of any other text it has nothing to say.
pub fn parse_config(text: &str, refusal: &str) -> (r: Result<ProjectConfig, Fault>)
    requires
        nesting(text@) <= MAX_NESTING,
    ensures
        config_result(r) == config_outcome(jsonc_tree(text@), refusal@),
{
    let value = match parse_jsonc(text) {
        Ok(Some(value)) => {
            proof {
                lemma_no_deeper_up(value_tree(value), nesting(text@), MAX_NESTING as nat);
            }
            Ok(Some(tree_of(value)))
        },
        Ok(None) => Ok(None),
        Err(message) => Err(message),
    };
    config_from(value, refusal)
}

/// What was found where `gbandit.jsonc` is looked for.
#[derive(Debug)]
pub enum ConfigFile {
    /// No file.
    Absent,
    /// A file that could not be read; the text says why.
    Unreadable(String),
    /// A file with this text. `refusal` says which of its fields is wrong, and how, where
    /// it is JSONC but no configuration.
    Text { text: String, refusal: String },
}

/// Whether the stack has room for reading the file that was found.
pub open spec fn readable(file: ConfigFile) -> bool {
    file matches ConfigFile::Text { text, .. } ==> nesting(text@) <= MAX_NESTING
}

/// What comes of the file that was found.
pub open spec fn file_outcome(file: ConfigFile) -> Result<ConfigView, FaultView> {
    match file {
        ConfigFile::Absent => Err(
            plain("no --project flag and no gbandit.jsonc found in the current directory"@),
        ),
        ConfigFile::Unreadable(why) => Err(caused("failed to read gbandit.jsonc"@, why@)),
        ConfigFile::Text { text, refusal } => config_outcome(jsonc_tree(text@), refusal@),
    }
}

/// Reads the configuration from the file that was found.
pub fn read_gbandit_jsonc(file: &ConfigFile) -> (r: Result<ProjectConfig, Fault>)
    requires
        readable(*file),
    ensures
        config_result(r) == file_outcome(*file),
{
    match file {
        ConfigFile::Absent => Err(
            Fault::plain(
                "no --project flag and no gbandit.jsonc found in the current directory".to_string(),
            ),
        ),
        ConfigFile::Unreadable(why) => Err(
            Fault::caused("failed to read gbandit.jsonc", why.as_str()),
        ),
        ConfigFile::Text { text, refusal } => parse_config(text.as_str(), refusal.as_str()),
    }
}

/// The project to work on: the one that was named, or the one of the configuration.
pub fn resolve_project(cli_project: Option<String>, file: &ConfigFile) -> (r: Result<String, Fault>)
    requires
        readable(*file),
    ensures
        match cli_project {
            Some(project) => r matches Ok(p) && p@ == project@,
            None => match file_outcome(*file) {
                Ok(config) => r matches Ok(p) && p@ == config.project,
                Err(fault) => r matches Err(f) && f@ == fault,
            },
        },
{
    if let Some(project) = cli_project {
        return Ok(project);
    }
    match read_gbandit_jsonc(file) {
        Ok(config) => Ok(config.project),
        Err(fault) => Err(fault),
    }
}

/// The configuration to deploy with. A project that was named takes the place of the
/// configuration's own, and makes do without any configuration, so that a deploy can be run
/// from anywhere.
pub fn load_project_config(cli_project: Option<String>, file: &ConfigFile) -> (r: Result<
    ProjectConfig,
    Fault,
>)
    requires
        readable(*file),
    ensures
        config_result(r) == match cli_project {
            Some(project) => Ok(
                match file_outcome(*file) {
                    Ok(config) => ConfigView { project: project@, ..config },
                    Err(_) => ConfigView { project: project@, title: None, auto_commit: false },
                },
            ),
            None => file_outcome(*file),
        },
{
    match cli_project {
        Some(project) => match read_gbandit_jsonc(file) {
            Ok(config) => Ok(
                ProjectConfig { project, title: config.title, local_dev: config.local_dev },
            ),
            Err(_) => Ok(
                ProjectConfig { project, title: None, local_dev: LocalDevConfig::default() },
            ),
        },
        None => read_gbandit_jsonc(file),
    }
}

proof fn lemma_other_member(object: Seq<(String, Json)>, extra: (String, Json), i: int, name: Seq<char>)
    requires
        0 <= i <= object.len(),
        extra.0@ != name,
    ensures
        member(object.insert(i, extra), name) == member(object, name),
    decreases object.len(),
{
    let more = object.insert(i, extra);
    if i == 0 {
        assert(more[0] == extra);
        assert(more.skip(1) =~= object);
    } else {
        assert(more[0] == object[0]);
        assert(more.skip(1) =~= object.skip(1).insert(i - 1, extra));
        lemma_other_member(object.skip(1), extra, i - 1, name);
    }
}

/// A field that the command line does not use makes no difference, wherever it stands.
pub proof fn law_other_fields_are_passed_over(
    object: Vec<(String, Json)>,
    larger: Vec<(String, Json)>,
    extra: (String, Json),
    i: int,
)
    requires
        0 <= i <= object@.len(),
        larger@ == object@.insert(i, extra),
        extra.0@ != "project"@,
        extra.0@ != "title"@,
        extra.0@ != "local_dev"@,
    ensures
        decoded(Json::Object(larger)) == decoded(Json::Object(object)),
{
    lemma_other_member(object@, extra, i, "project"@);
    lemma_other_member(object@, extra, i, "title"@);
    lemma_other_member(object@, extra, i, "local_dev"@);
}

// ---------------------------------------------------------------------------
// Origins
// ---------------------------------------------------------------------------

/// What was set, or the default.
pub open spec fn set_or(var: Option<Seq<char>>, default: Seq<char>) -> Seq<char> {
    match var {
        Some(value) => value,
        None => default,
    }
}

fn or_default(var: Option<String>, default: &str) -> (r: String)
    ensures
        r@ == set_or(opt_text(var), default@),
{
    match var {
        Some(value) => value,
        None => default.to_string(),
    }
}

/// The origin of the auth server. `var` is what `GBANDIT_AUTH_ORIGIN` is set to.
pub fn auth_origin(var: Option<String>) -> (r: String)
    ensures
        r@ == set_or(opt_text(var), "https://auth.gbandit.com"@),
{
    or_default(var, "https://auth.gbandit.com")
}

/// The origin of the documentation. `var` is what `GBANDIT_DOCS_ORIGIN` is set to.
pub fn docs_origin(var: Option<String>) -> (r: String)
    ensures
        r@ == set_or(opt_text(var), "https://docs.gbandit.com"@),
{
    or_default(var, "https://docs.gbandit.com")
}

/// The origin of the platform's interface. `var` is what `GBANDIT_PLATFORM_API_ORIGIN` is
/// set to.
pub fn platform_api_origin(var: Option<String>) -> (r: String)
    ensures
        r@ == set_or(opt_text(var), "https://platform.gbandit.com/api"@),
{
    or_default(var, "https://platform.gbandit.com/api")
}

/// The origin of the web pages that belong to an interface.
pub open spec fn web_of(api: Seq<char>) -> Seq<char> {
    if ends_with(api, "/api"@) {
        api.take(api.len() - "/api"@.len())
    } else {
        api
    }
}

/// The origin of the platform's web pages: that of its interface without `/api`.
pub fn platform_web_origin(api: String) -> (r: String)
    ensures
        r@ == if ends_with(api@, "/api"@) {
            api@.take(api@.len() - "/api"@.len())
        } else {
            api@
        },
        r@ == web_of(api@),
{
    match before_suffix(api.as_str(), "/api") {
        Some(web) => web,
        None => api,
    }
}

// ---------------------------------------------------------------------------
// Laws
// ---------------------------------------------------------------------------

/// An agent always commits; a user does exactly where their configuration says so.
pub proof fn law_who_commits(own: bool)
    ensures
        commits(true, own),
        commits(false, own) <==> own,
{
}

/// The web pages are where the interface is, without the `/api` at its end.
pub proof fn law_web_pages_are_beside_the_interface(origin: Seq<char>)
    ensures
        web_of(origin + "/api"@) == origin,
        !ends_with(origin, "/api"@) ==> web_of(origin) == origin,
{
    law_texts_contain_their_parts(origin, "/api"@, Seq::empty());
    assert((origin + "/api"@).take(origin.len() as int) =~= origin);
}

/// What is set takes the place of a default, whatever it is.
pub proof fn law_what_is_set_counts(value: Seq<char>, default: Seq<char>)
    ensures
        set_or(Some(value), default) == value,
        set_or(None, default) == default,
{
}

/// A configuration that is read has the project, the title and the flag of its own fields;
/// where a field is left out, there is no title and nothing is committed.
pub proof fn law_configurations_hold_their_fields(
    project: String,
    title: String,
    flag: bool,
    local_dev: Vec<(String, Json)>,
    name: String,
)
    requires
        local_dev@ == seq![(name, Json::Bool(flag))],
        name@ == "auto_commit"@,
    ensures
        assembled(
            Some(Json::Text(project)),
            Some(Json::Text(title)),
            Some(Json::Object(local_dev)),
        ) == Some(
            ConfigView { project: project@, title: Some(title@), auto_commit: flag },
        ),
        assembled(Some(Json::Text(project)), None, None) == Some(
            ConfigView { project: project@, title: None, auto_commit: false },
        ),
        assembled(Some(Json::Text(project)), Some(Json::Null), None) == assembled(
            Some(Json::Text(project)),
            None,
            None,
        ),
        assembled(None, Some(Json::Text(title)), Some(Json::Object(local_dev))) is None,
{
    assert(local_dev@[0].0@ == "auto_commit"@);
}

/// A field of the wrong kind makes the whole no configuration.
pub proof fn law_wrong_fields_are_refused(
    project: Option<Json>,
    title: Option<Json>,
    local_dev: Option<Json>,
)
    ensures
        assembled(project, title, local_dev) is Some ==> (project matches Some(Json::Text(_))),
        title is Some && !(title->0 is Text) && !(title->0 is Null) ==> assembled(
            project,
            title,
            local_dev,
        ) is None,
        local_dev is Some && !(local_dev->0 is Object) && !(local_dev->0 is Array) ==> assembled(
            project,
            title,
            local_dev,
        ) is None,
{
}

/// A member is found by its name, wherever it stands among others.
pub proof fn law_members_are_found_by_name(
    above: Seq<(String, Json)>,
    name: String,
    value: Json,
    below: Seq<(String, Json)>,
)
    requires
        forall|i: int| 0 <= i < above.len() ==> (#[trigger] above[i]).0@ != name@,
    ensures
        member(above + seq![(name, value)] + below, name@) == Some(value),
        member(above, name@) is None,
    decreases above.len(),
{
    let all = above + seq![(name, value)] + below;
    if above.len() == 0 {
        assert(all[0] == (name, value));
    } else {
        assert(all[0] == above[0]);
        assert(all.skip(1) =~= above.skip(1) + seq![(name, value)] + below);
        assert forall|i: int| 0 <= i < above.skip(1).len() implies (#[trigger] above.skip(1)[i]).0@
            != name@ by {
            assert(above.skip(1)[i] == above[i + 1]);
        }
        law_members_are_found_by_name(above.skip(1), name, value, below);
    }
}

/// An object is read by the three names, whatever their order.
pub proof fn law_objects_are_read_by_name(object: Vec<(String, Json)>)
    ensures
        decoded(Json::Object(object)) == assembled(
            member(object@, "project"@),
            member(object@, "title"@),
            member(object@, "local_dev"@),
        ),
{
}

/// A text that is no JSONC fails with the parser's words, an empty one as such, and one that
/// is no configuration with what is wrong with it.
pub proof fn law_bad_configurations_say_why(message: Seq<char>, json: Json, refusal: Seq<char>)
    ensures
        config_outcome(Err(message), refusal) matches Err(f) && f.cause is None && ends_with(
            f.message,
            message,
        ) && starts_with(f.message, "failed to parse gbandit.jsonc: "@),
        config_outcome(Ok(None), refusal) == Err::<ConfigView, FaultView>(
            plain("gbandit.jsonc is empty"@),
        ),
        decoded(json) is None ==> (config_outcome(Ok(Some(json)), refusal) matches Err(f) && f.cause
            == Some(refusal)),
        decoded(json) is Some ==> config_outcome(Ok(Some(json)), refusal) == Ok::<
            ConfigView,
            FaultView,
        >(decoded(json)->0),
{
    law_texts_contain_their_parts("failed to parse gbandit.jsonc: "@, message, Seq::empty());
    law_texts_contain_their_parts(Seq::empty(), "failed to parse gbandit.jsonc: "@, message);
}

/// The fields of an array are the project, the title and the settings for local work, in this
/// order; what is left out at the end is missing, and an array with more is no configuration.
pub proof fn law_arrays_are_read_in_order(array: Vec<Json>)
    ensures
        array@.len() == 0 ==> decoded(Json::Array(array)) is None,
        array@.len() == 1 ==> decoded(Json::Array(array)) == assembled(Some(array@[0]), None, None),
        array@.len() == 2 ==> decoded(Json::Array(array)) == assembled(
            Some(array@[0]),
            Some(array@[1]),
            None,
        ),
        array@.len() == 3 ==> decoded(Json::Array(array)) == assembled(
            Some(array@[0]),
            Some(array@[1]),
            Some(array@[2]),
        ),
        array@.len() > 3 ==> decoded(Json::Array(array)) is None,
{
}

/// A value that is neither an object nor an array is no configuration.
pub proof fn law_bare_values_are_no_configuration(json: Json)
    requires
        !(json is Object) && !(json is Array),
    ensures
        decoded(json) is None,
{
}

/// Whether a deploy commits is what the settings for local work say, as an object or as an
/// array; where they do not say it, it does not, and anything but a truth value is refused.
pub proof fn law_settings_say_whether_to_commit(
    project: String,
    object: Vec<(String, Json)>,
    array: Vec<Json>,
)
    ensures
        ({
            let text = Some(Json::Text(project));
            let named = assembled(text, None, Some(Json::Object(object)));
            let said = member(object@, "auto_commit"@);
            let listed = assembled(text, None, Some(Json::Array(array)));
            &&& said is None ==> named is Some && !named->0.auto_commit && named->0.project == project@
            &&& said is Some && said->0 is Bool ==> named is Some && named->0.auto_commit
                == said->0->Bool_0
            &&& said is Some && !(said->0 is Bool) ==> named is None
            &&& array@.len() == 0 ==> listed is Some && !listed->0.auto_commit
            &&& array@.len() == 1 && array@[0] is Bool ==> listed is Some && listed->0.auto_commit
                == array@[0]->Bool_0
            &&& array@.len() == 1 && !(array@[0] is Bool) ==> listed is None
            &&& array@.len() > 1 ==> listed is None
        }),
{
}

/// A file that is missing or cannot be read is no configuration, and one that can is read as
/// the value that it holds.
pub proof fn law_files_are_read_as_they_are(why: String, text: String, refusal: String)
    ensures
        file_outcome(ConfigFile::Absent) matches Err(f) && f.cause is None,
        file_outcome(ConfigFile::Unreadable(why)) matches Err(f) && f.cause == Some(why@),
        file_outcome(ConfigFile::Text { text, refusal }) == config_outcome(
            jsonc_tree(text@),
            refusal@,
        ),
{
}

/// Only a text that is nested too deeply is not read.
pub proof fn law_only_deep_texts_are_not_read(why: String, text: String, refusal: String)
    ensures
        readable(ConfigFile::Absent),
        readable(ConfigFile::Unreadable(why)),
        readable(ConfigFile::Text { text, refusal }) <==> nesting(text@) <= MAX_NESTING,
{
}

} // verus!
