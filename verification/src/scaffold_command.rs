//! `gbandit scaffold`: which questions are asked, which answers are taken, and what is said
//! of a name that is or is not to be had.

use vstd::prelude::*;
use vstd::string::*;
use vstd::utf8::*;

use crate::platform_client::SlugAvailability;
use crate::printer::{notices, Notice, NoticeView};
use crate::scaffold::{
    is_slug_edge, lemma_slug_bytes, slug_char, slug_edge, slug_of, slugify, title_from_slug, title_of_slug,
    valid_slug, MAX_SLUG,
};
use crate::text::{
    begins, chars_of, contains, control, copied, is_control, law_texts_contain_their_parts,
    law_trimming_keeps_the_middle, opt_text, same, starts_with, trim, trimmed, white,
};

verus! {

// ---------------------------------------------------------------------------
// Titles and slugs that users give
// ---------------------------------------------------------------------------

/// The longest title.
pub const MAX_TITLE: usize = 80;

/// What is wrong with a title.
pub open spec fn title_problem(value: Seq<char>) -> Option<Seq<char>> {
    if value.len() == 0 {
        Some("title cannot be empty"@)
    } else if value.len() > MAX_TITLE {
        Some("title must be 80 characters or fewer"@)
    } else if exists|i: int| 0 <= i < value.len() && control(#[trigger] value[i]) {
        Some("title may not contain control characters"@)
    } else {
        None
    }
}

/// Whether a value passed a check that finds `problem`.
pub open spec fn checked(r: Result<(), String>, problem: Option<Seq<char>>) -> bool {
    match r {
        Ok(()) => problem is None,
        Err(m) => problem == Some(m@),
    }
}

/// Checks a title.
pub fn validate_title_input(value: &str) -> (r: Result<(), String>)
    ensures
        checked(r, title_problem(value@)),
{
    let v = chars_of(value);
    if v.len() == 0 {
        return Err("title cannot be empty".to_string());
    }
    if v.len() > MAX_TITLE {
        return Err("title must be 80 characters or fewer".to_string());
    }
    let mut i: usize = 0;
    while i < v.len()
        invariant
            i <= v@.len(),
            v@ == value@,
            0 < value@.len() <= MAX_TITLE,
            forall|j: int| 0 <= j < i ==> !control(#[trigger] v@[j]),
        decreases v@.len() - i,
    {
        if is_control(v[i]) {
            proof {
                assert(control(value@[i as int]));
            }
            return Err("title may not contain control characters".to_string());
        }
        i = i + 1;
    }
    Ok(())
}

/// The prefixes that no slug may start with, since the platform uses them itself.
pub open spec fn reserved_prefix(value: Seq<char>) -> Option<Seq<char>> {
    if starts_with(value, "dev-"@) {
        Some("dev-"@)
    } else if starts_with(value, "stage-"@) {
        Some("stage-"@)
    } else if starts_with(value, "prod-"@) {
        Some("prod-"@)
    } else {
        None
    }
}

/// What is wrong with a slug. Its length is counted in bytes.
pub open spec fn slug_problem(value: Seq<char>) -> Option<Seq<char>> {
    if value.len() == 0 || encode_utf8(value).len() > MAX_SLUG {
        Some("slug must be 1–63 characters"@)
    } else if !slug_edge(value[0]) || !slug_edge(value.last()) {
        Some("slug must start and end with [a-z0-9]"@)
    } else if exists|i: int| 0 <= i < value.len() && !slug_char(#[trigger] value[i]) {
        Some("slug may only contain [a-z0-9-]"@)
    } else {
        match reserved_prefix(value) {
            Some(prefix) => Some("slug may not start with reserved prefix '"@ + prefix + "'"@),
            None => None,
        }
    }
}

fn reserved(prefix: &str) -> (r: String)
    ensures
        r@ == "slug may not start with reserved prefix '"@ + prefix@ + "'"@,
{
    "slug may not start with reserved prefix '".to_string().concat(prefix).concat("'")
}

/// Checks a slug.
pub fn validate_slug_input(value: &str) -> (r: Result<(), String>)
    ensures
        checked(r, slug_problem(value@)),
{
    let v = chars_of(value);
    if v.len() == 0 || value.as_bytes().len() > MAX_SLUG {
        return Err("slug must be 1–63 characters".to_string());
    }
    if !is_slug_edge(v[0]) || !is_slug_edge(v[v.len() - 1]) {
        return Err("slug must start and end with [a-z0-9]".to_string());
    }
    let mut i: usize = 0;
    while i < v.len()
        invariant
            i <= v@.len(),
            v@ == value@,
            value@.len() > 0,
            encode_utf8(value@).len() <= MAX_SLUG,
            slug_edge(value@[0]),
            slug_edge(value@.last()),
            forall|j: int| 0 <= j < i ==> slug_char(#[trigger] v@[j]),
        decreases v@.len() - i,
    {
        if !is_slug_edge(v[i]) && v[i] != '-' {
            proof {
                assert(!slug_char(value@[i as int]));
            }
            return Err("slug may only contain [a-z0-9-]".to_string());
        }
        i = i + 1;
    }
    if begins(value, "dev-") {
        return Err(reserved("dev-"));
    }
    if begins(value, "stage-") {
        return Err(reserved("stage-"));
    }
    if begins(value, "prod-") {
        return Err(reserved("prod-"));
    }
    Ok(())
}

/// What passes for a slug is exactly a slug without a reserved prefix.
pub proof fn law_checked_slugs_are_slugs(value: Seq<char>)
    ensures
        slug_problem(value) is None <==> valid_slug(value) && reserved_prefix(value) is None,
{
    if forall|i: int| 0 <= i < value.len() ==> slug_char(#[trigger] value[i]) {
        lemma_slug_bytes(value);
    }
}

// ---------------------------------------------------------------------------
// Prompts
// ---------------------------------------------------------------------------

/// What is asked for.
#[derive(Clone, Copy, Debug, PartialEq, Eq, Structural)]
pub enum Field {
    Title,
    Slug,
}

/// What is wrong with a value.
pub open spec fn problem(field: Field, value: Seq<char>) -> Option<Seq<char>> {
    match field {
        Field::Title => title_problem(value),
        Field::Slug => slug_problem(value),
    }
}

/// Checks a value.
pub fn validate(field: Field, value: &str) -> (r: Result<(), String>)
    ensures
        checked(r, problem(field, value@)),
{
    match field {
        Field::Title => validate_title_input(value),
        Field::Slug => validate_slug_input(value),
    }
}

/// What is shown in front of an answer.
pub open spec fn asked(label: Seq<char>, default: Seq<char>) -> Seq<char> {
    if default.len() == 0 {
        label + ": "@
    } else {
        label + " ["@ + default + "]: "@
    }
}

/// What to show in front of an answer, with the default where there is one.
pub fn prompt_text(label: &str, default: &str) -> (r: String)
    ensures
        r@ == if default@.len() == 0 {
            label@ + ": "@
        } else {
            label@ + " ["@ + default@ + "]: "@
        },
        r@ == asked(label@, default@),
{
    if default.is_empty() {
        label.to_string().concat(": ")
    } else {
        label.to_string().concat(" [").concat(default).concat("]: ")
    }
}

/// What an answer stands for: an empty one takes the default.
pub open spec fn answered(line: Seq<char>, default: Seq<char>) -> Seq<char> {
    if trim(line).len() == 0 {
        default
    } else {
        trim(line)
    }
}

/// Takes the answer to a question with a default; the error is what to say before asking
/// again.
pub fn prompt_with_default(field: Field, line: &str, default: &str) -> (r: Result<String, String>)
    ensures
        match r {
            Ok(value) => value@ == answered(line@, default@) && problem(field, value@) is None,
            Err(m) => problem(field, answered(line@, default@)) == Some(m@),
        },
{
    let given = trimmed(line);
    let value = if given.as_str().is_empty() {
        default.to_string()
    } else {
        given
    };
    match validate(field, value.as_str()) {
        Ok(()) => Ok(value),
        Err(m) => Err(m),
    }
}

/// Takes the answer to a question without a default; the error is what to say before asking
/// again.
pub fn prompt_required(field: Field, line: &str) -> (r: Result<String, String>)
    ensures
        match r {
            Ok(value) => value@ == trim(line@) && problem(field, value@) is None,
            Err(m) => problem(field, trim(line@)) == Some(m@),
        },
        match r {
            Ok(value) => value@ == answered(line@, Seq::empty()),
            Err(m) => problem(field, answered(line@, Seq::empty())) == Some(m@),
        },
{
    let value = trimmed(line);
    proof {
        assert(answered(line@, Seq::empty()) =~= trim(line@));
    }
    match validate(field, value.as_str()) {
        Ok(()) => Ok(value),
        Err(m) => Err(m),
    }
}

// ---------------------------------------------------------------------------
// What was asked for
// ---------------------------------------------------------------------------

/// A request that passed its checks.
#[derive(Debug)]
pub struct ScaffoldRequest {
    /// Whether the current directory is scaffolded.
    pub in_place: bool,
    /// The slug that was named.
    pub named_slug: Option<String>,
    /// The title that was given, trimmed.
    pub title: Option<String>,
}

/// Whether the name asks for the current directory.
pub open spec fn asks_in_place(name: Option<Seq<char>>) -> bool {
    name == Some("."@)
}

/// The slug that was named.
pub open spec fn named(name: Option<Seq<char>>) -> Option<Seq<char>> {
    if asks_in_place(name) {
        None
    } else {
        name
    }
}

/// What is wrong with a request: a bad name is told before a bad title.
pub open spec fn request_problem(name: Option<Seq<char>>, title: Option<Seq<char>>) -> Option<
    Seq<char>,
> {
    let name_problem = match named(name) {
        Some(slug) => slug_problem(slug),
        None => None,
    };
    let bad_title = match title {
        Some(title) => title_problem(trim(title)),
        None => None,
    };
    if name_problem is Some {
        Some("invalid name: "@ + name_problem->0)
    } else if bad_title is Some {
        Some("invalid title: "@ + bad_title->0)
    } else {
        None
    }
}

/// The title that is asked for, once it was trimmed.
pub open spec fn given_title(title: Option<Seq<char>>) -> Option<Seq<char>> {
    match title {
        Some(title) => Some(trim(title)),
        None => None,
    }
}

/// Checks what was asked for on the command line.
pub fn request(name: Option<String>, title: Option<String>) -> (r: Result<ScaffoldRequest, String>)
    ensures
        match r {
            Ok(request) => {
                &&& request_problem(opt_text(name), opt_text(title)) is None
                &&& request.in_place == asks_in_place(opt_text(name))
                &&& opt_text(request.named_slug) == named(opt_text(name))
                &&& opt_text(request.title) == match title {
                    Some(title) => Some(trim(title@)),
                    None => None,
                }
            },
            Err(m) => request_problem(opt_text(name), opt_text(title)) == Some(m@),
        },
        r matches Ok(request) ==> opt_text(request.title) == given_title(opt_text(title)),
{
    let in_place = match &name {
        Some(n) => same(n.as_str(), "."),
        None => false,
    };
    let named_slug = match name {
        Some(n) => if in_place {
            None
        } else {
            match validate_slug_input(n.as_str()) {
                Ok(()) => {},
                Err(m) => {
                    return Err("invalid name: ".to_string().concat(m.as_str()));
                },
            }
            Some(n)
        },
        None => None,
    };
    let title = match title {
        Some(t) => {
            let t = trimmed(t.as_str());
            match validate_title_input(t.as_str()) {
                Ok(()) => {},
                Err(m) => {
                    return Err("invalid title: ".to_string().concat(m.as_str()));
                },
            }
            Some(t)
        },
        None => None,
    };
    Ok(ScaffoldRequest { in_place, named_slug, title })
}

/// The directory to scaffold into.
pub open spec fn place(target: Option<Seq<char>>, in_place: bool, slug: Seq<char>) -> Seq<char> {
    match target {
        Some(target) => target,
        None => if in_place {
            "."@
        } else {
            slug
        },
    }
}

/// The directory to scaffold into.
pub fn target_path(target: Option<String>, in_place: bool, slug: &str) -> (r: String)
    ensures
        r@ == place(opt_text(target), in_place, slug@),
{
    match target {
        Some(target) => target,
        None => if in_place {
            ".".to_string()
        } else {
            slug.to_string()
        },
    }
}

/// What comes next in the dialog behind a request.
#[derive(Debug)]
pub enum Dialog {
    Refuse(String),
    /// Ask for the title, and offer this one; there is none to offer where it is empty.
    AskTitle { default: String },
    /// Ask for the slug, and offer this one.
    AskSlug { default: String },
    /// Nothing is left to ask.
    Scaffold { slug: String, title: Option<String>, target: String },
}

/// A [`Dialog`], as characters.
pub enum DialogView {
    Refuse(Seq<char>),
    AskTitle { default: Seq<char> },
    AskSlug { default: Seq<char> },
    Scaffold { slug: Seq<char>, title: Option<Seq<char>>, target: Seq<char> },
}

impl View for Dialog {
    type V = DialogView;

    open spec fn view(&self) -> DialogView {
        match self {
            Dialog::Refuse(m) => DialogView::Refuse(m@),
            Dialog::AskTitle { default } => DialogView::AskTitle { default: default@ },
            Dialog::AskSlug { default } => DialogView::AskSlug { default: default@ },
            Dialog::Scaffold { slug, title, target } => DialogView::Scaffold {
                slug: slug@,
                title: opt_text(*title),
                target: target@,
            },
        }
    }
}

/// The title that is known: the one that was given, else the one that was answered.
pub open spec fn known_title(request: ScaffoldRequest, answered: Option<Seq<char>>) -> Option<
    Seq<char>,
> {
    match request.title {
        Some(title) => Some(title@),
        None => answered,
    }
}

/// What comes next in the dialog behind a request, with the title and the slug that were
/// answered so far. A named project needs no answer: where nobody is there to confirm a
/// title it goes without one, so that a later deploy does not overwrite one that was set
/// elsewhere. Without a name both are asked for, the title first.
pub open spec fn dialog(
    request: ScaffoldRequest,
    interactive: bool,
    title: Option<Seq<char>>,
    slug: Option<Seq<char>>,
    target: Option<Seq<char>>,
) -> DialogView {
    match opt_text(request.named_slug) {
        Some(named) => if known_title(request, title) is None && interactive {
            DialogView::AskTitle { default: title_of_slug(named) }
        } else {
            DialogView::Scaffold {
                slug: named,
                title: known_title(request, title),
                target: place(target, request.in_place, named),
            }
        },
        None => if !interactive {
            DialogView::Refuse(
                "a project name is required when not running interactively: `gbandit scaffold <name>`"@,
            )
        } else {
            match (known_title(request, title), slug) {
                (None, _) => DialogView::AskTitle { default: ""@ },
                (Some(title), None) => DialogView::AskSlug { default: slug_of(title) },
                (Some(title), Some(slug)) => DialogView::Scaffold {
                    slug,
                    title: Some(title),
                    target: place(target, request.in_place, slug),
                },
            }
        },
    }
}

/// What comes next in the dialog behind a request, with the title and the slug that were
/// answered so far.
pub fn run(
    request: &ScaffoldRequest,
    interactive: bool,
    title: &Option<String>,
    slug: &Option<String>,
    target: &Option<String>,
) -> (r: Dialog)
    ensures
        r@ == dialog(*request, interactive, opt_text(*title), opt_text(*slug), opt_text(*target)),
{
    let known = match &request.title {
        Some(title) => Some(title.clone()),
        None => copied(title),
    };
    match &request.named_slug {
        Some(named) => {
            if known.is_none() && interactive {
                return Dialog::AskTitle { default: title_from_slug(named.as_str()) };
            }
            let target = target_path(copied(target), request.in_place, named.as_str());
            Dialog::Scaffold { slug: named.clone(), title: known, target }
        },
        None => {
            if !interactive {
                return Dialog::Refuse(
                    "a project name is required when not running interactively: `gbandit scaffold <name>`".to_string(),
                );
            }
            match (known, slug) {
                (None, _) => Dialog::AskTitle { default: "".to_string() },
                (Some(title), None) => Dialog::AskSlug { default: slugify(title.as_str()) },
                (Some(title), Some(slug)) => {
                    let target = target_path(copied(target), request.in_place, slug.as_str());
                    Dialog::Scaffold { slug: slug.clone(), title: Some(title), target }
                },
            }
        },
    }
}

/// The dialog ends: with a title and a slug answered, nothing is left to ask.
pub proof fn law_dialogs_end(
    request: ScaffoldRequest,
    interactive: bool,
    title: Seq<char>,
    slug: Seq<char>,
    target: Option<Seq<char>>,
)
    ensures
        ({
            let end = dialog(request, interactive, Some(title), Some(slug), target);
            end is Scaffold || (end is Refuse && !interactive && request.named_slug is None)
        }),
{
}

// ---------------------------------------------------------------------------
// Whether a name is to be had
// ---------------------------------------------------------------------------

/// What is said of a check that could not be made.
pub open spec fn skipped_text(why: Seq<char>) -> Seq<char> {
    "Skipping project-name availability check ("@ + why
        + "). The first `gbandit deploy` claims the name."@
}

/// What is said of a slug that the user owns.
pub open spec fn owned_text(slug: Seq<char>) -> Seq<char> {
    "You already own project '"@ + slug + "' — deploys will target the existing project."@
}

fn skipped(why: &str) -> (r: String)
    ensures
        r@ == skipped_text(why@),
{
    "Skipping project-name availability check (".to_string().concat(why).concat(
        "). The first `gbandit deploy` claims the name.",
    )
}

fn owned_by_you(slug: &str) -> (r: String)
    ensures
        r@ == owned_text(slug@),
{
    "You already own project '".to_string().concat(slug).concat(
        "' — deploys will target the existing project.",
    )
}

/// What is said when no check can be made because nobody is logged in.
pub fn not_logged_in() -> (r: String)
    ensures
        r@ == skipped_text("not logged in"@),
{
    skipped("not logged in")
}

/// Whether a name can be used, as far as is known: it is not somebody else's and not about
/// to go.
pub open spec fn to_be_had(availability: Option<Result<SlugAvailability, String>>) -> bool {
    match availability {
        Some(Ok(SlugAvailability::TakenByOther)) => false,
        Some(Ok(SlugAvailability::Deleting)) => false,
        _ => true,
    }
}

/// Decides on a slug that was named. A name that somebody else has is an error, so that no
/// scaffolding is wasted on it; where the check cannot be made, work goes on. The check's
/// own error is a text. What is returned is shown.
pub fn check_named_slug(slug: &str, availability: Result<SlugAvailability, String>) -> (r: Result<
    String,
    String,
>)
    ensures
        match availability {
            Ok(SlugAvailability::Free) => r matches Ok(m) && m@ == "'"@ + slug@
                + "' is available — the first deploy claims it."@,
            Ok(SlugAvailability::TakenByYou) => r matches Ok(m) && m@ == owned_text(slug@),
            Ok(SlugAvailability::TakenByOther) => r matches Err(m) && m@ == "project name '"@ + slug@
                + "' is already taken by another user — pick another name"@,
            Ok(SlugAvailability::Deleting) => r matches Err(m) && m@ == "project '"@ + slug@
                + "' is being deleted — try again in a moment or pick another name"@,
            Err(why) => r matches Ok(m) && m@ == skipped_text(why@),
        },
        r is Ok <==> to_be_had(Some(availability)),
        match r {
            Ok(m) => availability is Ok ==> contains(m@, slug@),
            Err(m) => contains(m@, slug@),
        },
{
    proof {
        law_texts_contain_their_parts("'"@, slug@, "' is available — the first deploy claims it."@);
        law_texts_contain_their_parts(
            "You already own project '"@,
            slug@,
            "' — deploys will target the existing project."@,
        );
        law_texts_contain_their_parts(
            "project name '"@,
            slug@,
            "' is already taken by another user — pick another name"@,
        );
        law_texts_contain_their_parts(
            "project '"@,
            slug@,
            "' is being deleted — try again in a moment or pick another name"@,
        );
    }
    match availability {
        Ok(SlugAvailability::Free) => Ok(
            "'".to_string().concat(slug).concat("' is available — the first deploy claims it."),
        ),
        Ok(SlugAvailability::TakenByYou) => Ok(owned_by_you(slug)),
        Ok(SlugAvailability::TakenByOther) => Err(
            "project name '".to_string().concat(slug).concat(
                "' is already taken by another user — pick another name",
            ),
        ),
        Ok(SlugAvailability::Deleting) => Err(
            "project '".to_string().concat(slug).concat(
                "' is being deleted — try again in a moment or pick another name",
            ),
        ),
        Err(why) => Ok(skipped(why.as_str())),
    }
}

/// What becomes of a slug that was answered.
#[derive(Debug)]
pub enum SlugChoice {
    /// It is taken, after showing this where there is something to show.
    Take(Option<String>),
    /// It is asked again, after this complaint, and offered as the default.
    AskAgain(String),
}

/// Decides on a slug that was answered to a prompt. `availability` is `None` where no check
/// can be made; the first deploy is the real claim.
pub fn prompt_available_slug(
    slug: &str,
    availability: Option<Result<SlugAvailability, String>>,
) -> (r: SlugChoice)
    ensures
        match availability {
            None => r matches SlugChoice::Take(shown) && shown is None,
            Some(Ok(SlugAvailability::Free)) => r matches SlugChoice::Take(shown) && shown is None,
            Some(Ok(SlugAvailability::TakenByYou)) => r matches SlugChoice::Take(shown) && opt_text(
                shown,
            ) == Some(owned_text(slug@)),
            Some(Ok(SlugAvailability::TakenByOther)) => r matches SlugChoice::AskAgain(m) && m@
                == "  '"@ + slug@ + "' is already taken by another user — pick another name"@,
            Some(Ok(SlugAvailability::Deleting)) => r matches SlugChoice::AskAgain(m) && m@ == "  '"@
                + slug@ + "' is being deleted — try again in a moment or pick another name"@,
            Some(Err(why)) => r matches SlugChoice::Take(shown) && opt_text(shown) == Some(
                skipped_text(why@),
            ),
        },
        r is Take <==> to_be_had(availability),
{
    match availability {
        None => SlugChoice::Take(None),
        Some(Ok(SlugAvailability::Free)) => SlugChoice::Take(None),
        Some(Ok(SlugAvailability::TakenByYou)) => SlugChoice::Take(Some(owned_by_you(slug))),
        Some(Ok(SlugAvailability::TakenByOther)) => SlugChoice::AskAgain(
            "  '".to_string().concat(slug).concat(
                "' is already taken by another user — pick another name",
            ),
        ),
        Some(Ok(SlugAvailability::Deleting)) => SlugChoice::AskAgain(
            "  '".to_string().concat(slug).concat(
                "' is being deleted — try again in a moment or pick another name",
            ),
        ),
        Some(Err(why)) => SlugChoice::Take(Some(skipped(why.as_str()))),
    }
}

// ---------------------------------------------------------------------------
// What is said around the work
// ---------------------------------------------------------------------------

/// What is said before scaffolding.
pub fn opening(slug: &str, target: &str) -> (r: String)
    ensures
        r@ == "Scaffolding '"@ + slug@ + "' into "@ + target@ + " ..."@,
{
    "Scaffolding '".to_string().concat(slug).concat("' into ").concat(target).concat(" ...")
}

/// What is said after scaffolding. `current_dir` says whether the target is the current
/// directory.
pub fn closing(current_dir: bool, target: &str) -> (r: Vec<Notice>)
    ensures
        notices(r@) == seq![
            NoticeView::Progress(
                if current_dir {
                    "Done. Run `gbandit deploy` to ship — the first deploy creates the project on the platform."@
                } else {
                    "Done. cd "@ + target@
                        + " && gbandit deploy — the first deploy creates the project on the platform."@
                },
            ),
            NoticeView::Progress(
                "Tip: to also build this project with the Pi Agent in the web UI, link a git remote first from Project Settings — without one the agent starts from a fresh template and won't see your local code."@,
            ),
        ],
{
    let done = if current_dir {
        "Done. Run `gbandit deploy` to ship — the first deploy creates the project on the platform.".to_string()
    } else {
        "Done. cd ".to_string().concat(target).concat(
            " && gbandit deploy — the first deploy creates the project on the platform.",
        )
    };
    let mut r: Vec<Notice> = Vec::new();
    r.push(Notice::Progress(done));
    r.push(
        Notice::Progress(
            "Tip: to also build this project with the Pi Agent in the web UI, link a git remote first from Project Settings — without one the agent starts from a fresh template and won't see your local code.".to_string(),
        ),
    );
    proof {
        assert(notices(r@) =~= seq![r@[0]@, r@[1]@]);
    }
    r
}

// ---------------------------------------------------------------------------
// Laws
// ---------------------------------------------------------------------------

/// A title is fine exactly where it has 1 to 80 characters and none of them is a control
/// character.
pub proof fn law_which_titles_are_fine(value: Seq<char>)
    ensures
        title_problem(value) is None <==> 1 <= value.len() <= 80 && forall|i: int|
            0 <= i < value.len() ==> !control(#[trigger] value[i]),
{
}

/// Control characters are those below a blank and those from 127 to 159.
pub proof fn law_which_characters_are_control(c: char)
    ensures
        control(c) <==> (c as int) < 32 || 127 <= c as int <= 159,
{
}

/// The names of environments with a dash behind them are reserved, whatever follows; names
/// that begin otherwise are not.
pub proof fn law_environments_are_reserved(rest: Seq<char>, value: Seq<char>)
    ensures
        reserved_prefix("dev-"@ + rest) is Some,
        reserved_prefix("stage-"@ + rest) is Some,
        reserved_prefix("prod-"@ + rest) is Some,
        reserved_prefix(value) is Some ==> starts_with(value, reserved_prefix(value)->0) && (
        reserved_prefix(value)->0 == "dev-"@ || reserved_prefix(value)->0 == "stage-"@
            || reserved_prefix(value)->0 == "prod-"@),
{
    let none = Seq::<char>::empty();
    law_texts_contain_their_parts(none, "dev-"@, rest);
    law_texts_contain_their_parts(none, "stage-"@, rest);
    law_texts_contain_their_parts(none, "prod-"@, rest);
}

/// A reserved name is no slug.
pub proof fn law_reserved_names_are_refused(value: Seq<char>)
    requires
        reserved_prefix(value) is Some,
    ensures
        slug_problem(value) is Some,
{
    law_checked_slugs_are_slugs(value);
}

/// A problem with a slug is told as what it is: its length first, its ends next, then what it
/// is made of, and a reserved name last.
pub proof fn law_problems_with_slugs_are_told_apart(value: Seq<char>, i: int)
    ensures
        value.len() == 0 ==> slug_problem(value) == Some("slug must be 1–63 characters"@),
        encode_utf8(value).len() > 63 ==> slug_problem(value) == Some(
            "slug must be 1–63 characters"@,
        ),
        0 < value.len() && encode_utf8(value).len() <= 63 && (value[0] == '-' || value.last() == '-')
            ==> slug_problem(value) == Some("slug must start and end with [a-z0-9]"@),
        0 < i < value.len() - 1 && encode_utf8(value).len() <= 63 && slug_edge(value[0])
            && slug_edge(value.last()) && !slug_char(value[i]) ==> slug_problem(value) == Some(
            "slug may only contain [a-z0-9-]"@,
        ),
{
}

/// Each field is checked by its own rules.
pub proof fn law_fields_have_their_own_rules(value: Seq<char>)
    ensures
        problem(Field::Title, value) is None <==> 1 <= value.len() <= 80 && forall|i: int|
            0 <= i < value.len() ==> !control(#[trigger] value[i]),
        problem(Field::Slug, value) is None <==> valid_slug(value) && reserved_prefix(value) is None,
{
    law_checked_slugs_are_slugs(value);
}

/// An answer counts without the white space around it, and one of nothing else takes the
/// default.
pub proof fn law_empty_answers_take_the_default(
    before: Seq<char>,
    answer: Seq<char>,
    after: Seq<char>,
    default: Seq<char>,
)
    requires
        forall|i: int| 0 <= i < before.len() ==> white(#[trigger] before[i]),
        forall|i: int| 0 <= i < after.len() ==> white(#[trigger] after[i]),
        answer.len() > 0 ==> !white(answer[0]) && !white(answer.last()),
    ensures
        answer.len() > 0 ==> answered(before + answer + after, default) == answer,
        answer.len() == 0 ==> answered(before + answer + after, default) == default,
{
    law_trimming_keeps_the_middle(before, answer, after);
}

/// A question shows what it asks for, and the default wherever there is one.
pub proof fn law_questions_show_their_default(label: Seq<char>, default: Seq<char>)
    ensures
        starts_with(asked(label, default), label),
        default.len() > 0 ==> contains(asked(label, default), "["@ + default + "]"@),
        default.len() == 0 ==> asked(label, default).len() == label.len() + 2,
{
    reveal_strlit(": ");
    let none = Seq::<char>::empty();
    if default.len() == 0 {
        law_texts_contain_their_parts(none, label, ": "@);
    } else {
        reveal_strlit(" [");
        reveal_strlit("[");
        reveal_strlit("]: ");
        reveal_strlit("]");
        let all = label + " ["@ + default + "]: "@;
        law_texts_contain_their_parts(none, label, " ["@ + default + "]: "@);
        assert(label + (" ["@ + default + "]: "@) =~= all);
        law_texts_contain_their_parts(label.push(' '), "["@ + default + "]"@, ": "@);
        assert(label.push(' ') + ("["@ + default + "]"@) + ": "@ =~= all);
    }
}

/// A name that is not `.` is the slug and must pass as one; `.` stands for the current
/// directory and names no slug. A title must pass as one without the white space around it.
pub proof fn law_what_is_asked_for_is_checked(name: Seq<char>, title: Option<Seq<char>>)
    ensures
        !asks_in_place(None),
        named(None) is None,
        asks_in_place(Some(name)) <==> name == "."@,
        name == "."@ ==> named(Some(name)) is None,
        name != "."@ ==> named(Some(name)) == Some(name),
        name != "."@ && slug_problem(name) is Some ==> request_problem(Some(name), title) == Some(
            "invalid name: "@ + slug_problem(name)->0,
        ),
        name != "."@ && slug_problem(name) is None ==> request_problem(Some(name), title)
            == request_problem(None, title),
        name == "."@ ==> request_problem(Some(name), title) == request_problem(None, title),
        title is None ==> request_problem(None, title) is None,
        title is Some && title_problem(trim(title->0)) is None ==> request_problem(None, title) is None,
        title is Some && title_problem(trim(title->0)) is Some ==> request_problem(None, title) == Some(
            "invalid title: "@ + title_problem(trim(title->0))->0,
        ),
{
}

/// A directory that was named is used whatever else was; without one it is the current
/// directory where that was asked for, and one that is called like the slug otherwise.
pub proof fn law_where_workspaces_go(target: Seq<char>, in_place: bool, slug: Seq<char>)
    ensures
        place(Some(target), in_place, slug) == target,
        place(None, true, slug) == "."@,
        place(None, false, slug) == slug,
{
}

/// Nobody is asked anything where nobody is there to answer, and no title is made up then.
pub proof fn law_nobody_is_asked_in_vain(
    request: ScaffoldRequest,
    title: Option<Seq<char>>,
    slug: Option<Seq<char>>,
    target: Option<Seq<char>>,
)
    ensures
        ({
            let next = dialog(request, false, title, slug, target);
            &&& !(next is AskTitle) && !(next is AskSlug)
            &&& next is Refuse <==> request.named_slug is None
            &&& (request.named_slug is Some && request.title is None && title is None) ==> next
                == (DialogView::Scaffold {
                slug: request.named_slug->0@,
                title: None,
                target: place(target, request.in_place, request.named_slug->0@),
            })
        }),
{
}

/// What was given on the command line counts before what is answered, and is never asked for;
/// a workspace gets the slug that was named or answered, and goes where it was asked to.
pub proof fn law_what_was_given_is_not_asked(
    request: ScaffoldRequest,
    interactive: bool,
    title: Option<Seq<char>>,
    slug: Option<Seq<char>>,
    target: Option<Seq<char>>,
)
    ensures
        ({
            let next = dialog(request, interactive, title, slug, target);
            &&& request.title is Some ==> !(next is AskTitle)
            &&& title is Some ==> !(next is AskTitle)
            &&& request.named_slug is Some ==> !(next is AskSlug)
            &&& slug is Some ==> !(next is AskSlug)
            &&& (interactive && request.title is None && title is None) ==> next is AskTitle
            &&& (interactive && request.named_slug is None && slug is None && (request.title is Some
                || title is Some)) ==> next is AskSlug
            &&& next matches DialogView::Scaffold { slug: s, title: t, target: p } ==> {
                &&& request.named_slug is Some ==> s == request.named_slug->0@
                &&& request.named_slug is None ==> slug == Some(s)
                &&& request.title is Some ==> t == Some(request.title->0@)
                &&& request.title is None ==> t == title
                &&& p == place(target, request.in_place, s)
            }
        }),
{
}

/// What is offered belongs together: the title of the slug that was named, and the slug of the
/// title that is known.
pub proof fn law_what_is_offered(
    request: ScaffoldRequest,
    title: Option<Seq<char>>,
    slug: Option<Seq<char>>,
    target: Option<Seq<char>>,
)
    ensures
        ({
            let next = dialog(request, true, title, slug, target);
            &&& (next is AskTitle && request.named_slug is Some) ==> next->AskTitle_default
                == title_of_slug(request.named_slug->0@)
            &&& (next is AskTitle && request.named_slug is None) ==> next->AskTitle_default.len()
                == 0
            &&& (next is AskSlug && request.title is Some) ==> next->AskSlug_default == slug_of(
                request.title->0@,
            )
            &&& (next is AskSlug && request.title is None) ==> next->AskSlug_default == slug_of(
                title->0,
            )
        }),
{
    reveal_strlit("");
}

/// Only a name that somebody else has, or that is about to go, is turned down: one that
/// nothing is known of can be used.
pub proof fn law_which_names_are_to_be_had(why: String)
    ensures
        to_be_had(None),
        to_be_had(Some(Err(why))),
        to_be_had(Some(Ok(SlugAvailability::Free))),
        to_be_had(Some(Ok(SlugAvailability::TakenByYou))),
        !to_be_had(Some(Ok(SlugAvailability::TakenByOther))),
        !to_be_had(Some(Ok(SlugAvailability::Deleting))),
{
}

/// A title that was given is kept without the white space around it, and none is made up.
pub proof fn law_given_titles_are_kept(before: Seq<char>, title: Seq<char>, after: Seq<char>)
    requires
        forall|i: int| 0 <= i < before.len() ==> white(#[trigger] before[i]),
        forall|i: int| 0 <= i < after.len() ==> white(#[trigger] after[i]),
        title.len() > 0 ==> !white(title[0]) && !white(title.last()),
    ensures
        given_title(Some(before + title + after)) == Some(title),
        given_title(None) is None,
{
    law_trimming_keeps_the_middle(before, title, after);
}

/// A check that could not be made says why, and a name that is one's own is told as such.
pub proof fn law_checks_say_what_they_found(why: Seq<char>, slug: Seq<char>)
    ensures
        contains(skipped_text(why), "("@ + why + ")"@),
        contains(owned_text(slug), slug),
{
    reveal_strlit("(");
    reveal_strlit(")");
    let head = "Skipping project-name availability check ("@;
    let tail = "). The first `gbandit deploy` claims the name."@;
    reveal_strlit("Skipping project-name availability check (");
    reveal_strlit("). The first `gbandit deploy` claims the name.");
    law_texts_contain_their_parts(head.drop_last(), "("@ + why + ")"@, tail.skip(1));
    assert(head.drop_last() + ("("@ + why + ")"@) + tail.skip(1) =~= head + why + tail);
    law_texts_contain_their_parts(
        "You already own project '"@,
        slug,
        "' — deploys will target the existing project."@,
    );
}

} // verus!
