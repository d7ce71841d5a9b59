//! `gbandit new`: a project on the platform and its workspace in one go.

use vstd::prelude::*;
use vstd::string::*;

pub use crate::scaffold_command::{validate_slug_input, validate_title_input};

use crate::scaffold::{slug_of, slugify};
use crate::scaffold_command::{asks_in_place, named, slug_problem};
use crate::text::{opt_text, same};

verus! {

/// Where the slug comes from.
#[derive(Debug)]
pub enum SlugSource {
    Named(String),
    /// Ask with this label, and offer this default.
    Ask { label: String, default: String },
}

/// [`SlugSource`], as characters.
pub enum SourceView {
    Named(Seq<char>),
    Ask { label: Seq<char>, default: Seq<char> },
}

impl View for SlugSource {
    type V = SourceView;

    open spec fn view(&self) -> SourceView {
        match self {
            SlugSource::Named(slug) => SourceView::Named(slug@),
            SlugSource::Ask { label, default } => SourceView::Ask {
                label: label@,
                default: default@,
            },
        }
    }
}

/// Where the slug comes from.
pub open spec fn source_of(name: Option<Seq<char>>, title: Seq<char>) -> Result<SourceView, Seq<char>> {
    match named(name) {
        Some(slug) => match slug_problem(slug) {
            Some(problem) => Err("invalid name: "@ + problem),
            None => Ok(SourceView::Named(slug)),
        },
        None => Ok(
            SourceView::Ask {
                label: if asks_in_place(name) {
                    "Project slug (your game will be at your-slug.gbandit.com)"@
                } else {
                    "Project slug"@
                },
                default: slug_of(title),
            },
        ),
    }
}

/// Where the slug comes from. A name is both the slug and the directory; `.` stands for the
/// current directory, and the slug is asked for.
pub fn slug_source(name: Option<String>, title: &str) -> (r: Result<SlugSource, String>)
    ensures
        match name {
            Some(n) => if n@ == "."@ {
                r matches Ok(SlugSource::Ask { label, default }) && label@
                    == "Project slug (your game will be at your-slug.gbandit.com)"@ && default@
                    == slug_of(title@)
            } else {
                match slug_problem(n@) {
                    Some(problem) => r matches Err(m) && m@ == "invalid name: "@ + problem,
                    None => r matches Ok(SlugSource::Named(slug)) && slug@ == n@,
                }
            },
            None => r matches Ok(SlugSource::Ask { label, default }) && label@ == "Project slug"@
                && default@ == slug_of(title@),
        },
        match r {
            Ok(source) => source_of(opt_text(name), title@) == Ok::<SourceView, Seq<char>>(source@),
            Err(m) => source_of(opt_text(name), title@) == Err::<SourceView, Seq<char>>(m@),
        },
{
    match name {
        Some(n) => {
            if same(n.as_str(), ".") {
                return Ok(
                    SlugSource::Ask {
                        label: "Project slug (your game will be at your-slug.gbandit.com)".to_string(),
                        default: slugify(title),
                    },
                );
            }
            match validate_slug_input(n.as_str()) {
                Ok(()) => Ok(SlugSource::Named(n)),
                Err(m) => Err("invalid name: ".to_string().concat(m.as_str())),
            }
        },
        None => Ok(SlugSource::Ask { label: "Project slug".to_string(), default: slugify(title) }),
    }
}

/// Whether the name asks for the current directory.
pub fn is_in_place(name: &Option<String>) -> (r: bool)
    ensures
        r == asks_in_place(opt_text(*name)),
{
    match name {
        Some(n) => same(n.as_str(), "."),
        None => false,
    }
}

/// What is said before the project is created.
pub fn creating(slug: &str, title: &str) -> (r: String)
    ensures
        r@ == "Creating project '"@ + slug@ + "' (title: \""@ + title@ + "\") on the platform..."@,
{
    "Creating project '".to_string().concat(slug).concat("' (title: \"").concat(title).concat(
        "\") on the platform...",
    )
}

/// What is said once the project is created.
pub fn scaffolding(target: &str) -> (r: String)
    ensures
        r@ == "Project created. Scaffolding into "@ + target@ + " ..."@,
{
    "Project created. Scaffolding into ".to_string().concat(target).concat(" ...")
}

/// What is said at the end.
pub fn closing(in_place: bool, target: &str) -> (r: String)
    ensures
        r@ == if in_place {
            "Done. Run `gbandit deploy` to ship."@
        } else {
            "Done. cd "@ + target@ + " && gbandit deploy"@
        },
{
    if in_place {
        "Done. Run `gbandit deploy` to ship.".to_string()
    } else {
        "Done. cd ".to_string().concat(target).concat(" && gbandit deploy")
    }
}

/// A slug is asked for exactly where none was named, and then the title's own is offered; one
/// that was named is used as it is, or refused.
pub proof fn law_slugs_are_named_or_asked_for(name: Seq<char>, title: Seq<char>)
    ensures
        source_of(None, title) matches Ok(SourceView::Ask { label, default }) && default == slug_of(
            title,
        ),
        source_of(Some("."@), title) matches Ok(SourceView::Ask { label, default }) && default
            == slug_of(title),
        name != "."@ && slug_problem(name) is None ==> source_of(Some(name), title) == Ok::<
            SourceView,
            Seq<char>,
        >(SourceView::Named(name)),
        name != "."@ && slug_problem(name) is Some ==> source_of(Some(name), title) is Err,
{
}

} // verus!
