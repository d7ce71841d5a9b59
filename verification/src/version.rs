//! Which version a build is.

use vstd::prelude::*;
use vstd::string::*;
use vstd::utf8::*;

use crate::git::GitRun;
use crate::lines::{lines, lines_of};
use crate::outside::utf8_text;
use crate::text::{begins, opt_str, opt_text, starts_with, texts, trim, trimmed};

verus! {

/// Whether a tag names a release.
pub open spec fn is_release(tag: Seq<char>) -> bool {
    starts_with(tag, "v"@)
}

/// The first line that names a release, trimmed.
pub open spec fn first_release(lines: Seq<Seq<char>>) -> Option<Seq<char>>
    decreases lines.len(),
{
    if lines.len() == 0 {
        None
    } else if is_release(trim(lines[0])) {
        Some(trim(lines[0]))
    } else {
        first_release(lines.skip(1))
    }
}

/// The first release in a list of tags.
pub fn release_in(listing: &str) -> (r: Option<String>)
    ensures
        opt_text(r) == first_release(lines(listing@)),
{
    let list = lines_of(listing);
    let ghost all = lines(listing@);
    let mut i: usize = 0;
    proof {
        assert(all.skip(0) =~= all);
    }
    while i < list.len()
        invariant
            i <= list@.len(),
            texts(list@) == all,
            all == lines(listing@),
            first_release(all.skip(i as int)) == first_release(all),
        decreases list@.len() - i,
    {
        proof {
            assert(texts(list@)[i as int] == list@[i as int]@);
            assert(all.skip(i as int)[0] == all[i as int]);
            assert(all.skip(i as int).skip(1) =~= all.skip(i + 1));
        }
        let tag = trimmed(list[i].as_str());
        if begins(tag.as_str(), "v") {
            return Some(tag);
        }
        i = i + 1;
    }
    None
}

/// The arguments that ask `git` for the tags at `HEAD`, newest version first.
pub fn tag_args() -> (r: Vec<String>)
    ensures
        texts(r@) == seq!["tag"@, "--points-at"@, "HEAD"@, "--sort=-version:refname"@],
{
    let mut r: Vec<String> = Vec::new();
    r.push("tag".to_string());
    r.push("--points-at".to_string());
    r.push("HEAD".to_string());
    r.push("--sort=-version:refname".to_string());
    proof {
        assert(texts(r@) =~= seq!["tag"@, "--points-at"@, "HEAD"@, "--sort=-version:refname"@]);
    }
    r
}

/// The release that the commit at `HEAD` is tagged as.
pub open spec fn tagged(run: GitRun) -> Option<Seq<char>> {
    match run {
        GitRun::NotStarted(_) => None,
        GitRun::Ran { success, stdout, .. } => if success && valid_utf8(stdout@) {
            first_release(lines(decode_utf8(stdout@)))
        } else {
            None
        },
    }
}

/// The release that the commit at `HEAD` is tagged as.
pub fn git_tag_at_head(run: &GitRun) -> (r: Option<String>)
    ensures
        opt_text(r) == tagged(*run),
{
    match run {
        GitRun::NotStarted(_) => None,
        GitRun::Ran { success, stdout, .. } => {
            if !*success {
                return None;
            }
            match utf8_text(stdout.as_slice()) {
                Some(listing) => release_in(listing.as_str()),
                None => None,
            }
        },
    }
}

/// Which version a build is: the release that it is built for, else the one that its commit
/// is tagged as, else the package's own.
pub open spec fn version_of(
    ref_name: Option<Seq<char>>,
    tag: Option<Seq<char>>,
    package: Seq<char>,
) -> Seq<char> {
    match (ref_name, tag) {
        (Some(name), _) if is_release(name) => name,
        (_, Some(tag)) => tag,
        _ => "v"@ + package,
    }
}

/// Which version a build is.
pub fn build_version(ref_name: Option<&str>, tag: Option<&str>, package: &str) -> (r: String)
    ensures
        r@ == version_of(opt_str(ref_name), opt_str(tag), package@),
{
    match ref_name {
        Some(name) => {
            if begins(name, "v") {
                return name.to_string();
            }
        },
        None => {},
    }
    match tag {
        Some(tag) => tag.to_string(),
        None => "v".to_string().concat(package),
    }
}

// ---------------------------------------------------------------------------
// Laws
// ---------------------------------------------------------------------------

/// The first tag that names a release counts, without the white space around it; tags that do
/// not are passed over.
pub proof fn law_other_tags_are_passed_over(
    others: Seq<Seq<char>>,
    tag: Seq<char>,
    rest: Seq<Seq<char>>,
)
    requires
        forall|i: int| 0 <= i < others.len() ==> !is_release(trim(#[trigger] others[i])),
        is_release(trim(tag)),
    ensures
        first_release(others + seq![tag] + rest) == Some(trim(tag)),
        first_release(others) is None,
    decreases others.len(),
{
    let all = others + seq![tag] + rest;
    if others.len() == 0 {
        assert(all[0] == tag);
    } else {
        assert(all[0] == others[0]);
        assert(all.skip(1) =~= others.skip(1) + seq![tag] + rest);
        assert forall|i: int| 0 <= i < others.skip(1).len() implies !is_release(
            trim(#[trigger] others.skip(1)[i]),
        ) by {
            assert(others.skip(1)[i] == others[i + 1]);
        }
        law_other_tags_are_passed_over(others.skip(1), tag, rest);
    }
}

/// A tag names a release exactly where it begins with a small `v`.
pub proof fn law_releases_begin_with_v(tag: Seq<char>)
    ensures
        is_release(tag) <==> tag.len() > 0 && tag[0] == 'v',
{
    reveal_strlit("v");
    if tag.len() > 0 {
        assert(tag.subrange(0, 1) =~= seq![tag[0]]);
        assert("v"@ =~= seq!['v']);
        assert(seq![tag[0]][0] == tag[0]);
        assert("v"@[0] == 'v');
    }
}

/// The release that is built for counts before the one of the commit, and that before the
/// package's own; a branch is no release.
pub proof fn law_which_version_counts(
    name: Seq<char>,
    tag: Seq<char>,
    any: Option<Seq<char>>,
    package: Seq<char>,
)
    ensures
        is_release(name) ==> version_of(Some(name), any, package) == name,
        !is_release(name) ==> version_of(Some(name), any, package) == version_of(
            None,
            any,
            package,
        ),
        version_of(None, Some(tag), package) == tag,
        version_of(None, None, package) == "v"@ + package,
{
}

/// A commit is tagged only as far as `git` says so in text: a run that failed, that did not
/// start or that wrote something else tells nothing.
pub proof fn law_only_good_runs_tell_tags(run: GitRun)
    ensures
        run is NotStarted ==> tagged(run) is None,
        run is Ran && !run->success ==> tagged(run) is None,
        run is Ran && !valid_utf8(run->stdout@) ==> tagged(run) is None,
        run is Ran && run->success && valid_utf8(run->stdout@) ==> tagged(run) == first_release(
            lines(decode_utf8(run->stdout@)),
        ),
{
}

} // verus!
