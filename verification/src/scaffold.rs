//! A fresh workspace from the game template: names, placeholders, and the steps that make
//! it.

use vstd::prelude::*;
use vstd::string::*;
use vstd::utf8::*;

use crate::lines::{join, joined, replace, replaced};
use crate::outside::{json_literal, json_string, utf8_text};
use crate::text::{
    ascii_digit, ascii_lower, ascii_lower_of, chars_of, contains, law_texts_contain_their_parts,
    lower_char, mentions, occurs_at, opt_str, opt_text, same, string_of, texts,
};

verus! {

// ---------------------------------------------------------------------------
// Slugs
// ---------------------------------------------------------------------------

/// The longest slug.
pub const MAX_SLUG: usize = 63;

/// What may stand at the ends of a slug.
pub open spec fn slug_edge(c: char) -> bool {
    ascii_lower(c) || ascii_digit(c)
}

/// What may stand in a slug.
pub open spec fn slug_char(c: char) -> bool {
    slug_edge(c) || c == '-'
}

/// Whether a text is a slug: 1 to 63 of `a` to `z`, `0` to `9` and `-`, with no `-` at the
/// ends.
pub open spec fn valid_slug(s: Seq<char>) -> bool {
    &&& 1 <= s.len() <= MAX_SLUG
    &&& slug_edge(s[0]) && slug_edge(s.last())
    &&& forall|i: int| 0 <= i < s.len() ==> slug_char(#[trigger] s[i])
}

/// Whether a slug may begin or end with `c`.
pub(crate) fn is_slug_edge(c: char) -> (r: bool)
    ensures
        r == slug_edge(c),
{
    ('a' <= c && c <= 'z') || ('0' <= c && c <= '9')
}

/// Whether a text is a slug.
pub fn is_valid_slug(slug: &str) -> (r: bool)
    ensures
        r == valid_slug(slug@),
{
    let v = chars_of(slug);
    if v.len() == 0 || v.len() > MAX_SLUG {
        return false;
    }
    if !is_slug_edge(v[0]) || !is_slug_edge(v[v.len() - 1]) {
        return false;
    }
    let mut i: usize = 0;
    while i < v.len()
        invariant
            i <= v@.len(),
            v@ == slug@,
            forall|j: int| 0 <= j < i ==> slug_char(#[trigger] v@[j]),
        decreases v@.len() - i,
    {
        if !is_slug_edge(v[i]) && v[i] != '-' {
            proof {
                assert(!slug_char(slug@[i as int]));
            }
            return false;
        }
        i = i + 1;
    }
    true
}

/// A slug is as long in bytes as in characters.
pub proof fn lemma_slug_bytes(s: Seq<char>)
    requires
        forall|i: int| 0 <= i < s.len() ==> slug_char(#[trigger] s[i]),
    ensures
        encode_utf8(s).len() == s.len(),
{
    assert forall|i: int| 0 <= i < s.len() implies '\0' <= #[trigger] s[i] <= '\u{7f}' by {
        assert(slug_char(s[i]));
    }
    is_ascii_chars_encode_utf8(s);
}

/// The letters and digits of a title in lower case, each run of anything else between two
/// of them as one `-`; a last `-` may be left over.
pub open spec fn dashed(title: Seq<char>) -> Seq<char>
    decreases title.len(),
{
    if title.len() == 0 {
        Seq::empty()
    } else {
        let before = dashed(title.drop_last());
        let c = ascii_lower_of(title.last());
        if slug_edge(c) {
            before.push(c)
        } else if before.len() > 0 && before.last() != '-' {
            before.push('-')
        } else {
            before
        }
    }
}

/// `s` without any `-` at its end.
pub open spec fn without_dashes(s: Seq<char>) -> Seq<char>
    decreases s.len(),
{
    if s.len() > 0 && s.last() == '-' {
        without_dashes(s.drop_last())
    } else {
        s
    }
}

/// The slug that a title suggests.
pub open spec fn slug_of(title: Seq<char>) -> Seq<char> {
    let whole = without_dashes(dashed(title));
    if whole.len() > MAX_SLUG {
        without_dashes(whole.take(MAX_SLUG as int))
    } else {
        whole
    }
}

fn drop_dashes(v: &mut Vec<char>)
    ensures
        final(v)@ == without_dashes(old(v)@),
{
    while v.len() > 0 && v[v.len() - 1] == '-'
        invariant
            without_dashes(v@) == without_dashes(old(v)@),
        decreases v@.len(),
    {
        let _ = v.pop();
    }
}

/// The slug that a title suggests. It is empty where the title has no letter or digit.
pub fn slugify(title: &str) -> (r: String)
    ensures
        r@ == slug_of(title@),
{
    let v = chars_of(title);
    let mut out: Vec<char> = Vec::new();
    let mut prev_dash = true;
    let mut i: usize = 0;
    proof {
        assert(v@.take(0) =~= Seq::<char>::empty());
    }
    while i < v.len()
        invariant
            i <= v@.len(),
            v@ == title@,
            out@ == dashed(v@.take(i as int)),
            prev_dash == (out@.len() == 0 || out@.last() == '-'),
        decreases v@.len() - i,
    {
        let c = lower_char(v[i]);
        proof {
            let next = v@.take(i + 1);
            assert(next.drop_last() =~= v@.take(i as int));
            assert(next.last() == v@[i as int]);
        }
        if is_slug_edge(c) {
            out.push(c);
            prev_dash = false;
        } else if !prev_dash {
            out.push('-');
            prev_dash = true;
        }
        i = i + 1;
    }
    proof {
        assert(v@.take(i as int) =~= v@);
    }
    drop_dashes(&mut out);
    if out.len() > MAX_SLUG {
        out.truncate(MAX_SLUG);
        drop_dashes(&mut out);
    }
    let end = out.len();
    proof {
        assert(out@.subrange(0, end as int) =~= out@);
    }
    string_of(&out, 0, end)
}

/// What [`dashed`] gives: slug characters that start with no `-`.
spec fn slug_like(s: Seq<char>) -> bool {
    &&& s.len() > 0 ==> slug_edge(s[0])
    &&& forall|i: int| 0 <= i < s.len() ==> slug_char(#[trigger] s[i])
}

proof fn lemma_dashed(title: Seq<char>)
    ensures
        slug_like(dashed(title)),
    decreases title.len(),
{
    if title.len() > 0 {
        lemma_dashed(title.drop_last());
    }
}

proof fn lemma_without_dashes(s: Seq<char>)
    requires
        slug_like(s),
    ensures
        slug_like(without_dashes(s)),
        without_dashes(s).len() <= s.len(),
        without_dashes(s).len() > 0 ==> slug_edge(without_dashes(s).last()),
        without_dashes(without_dashes(s)) == without_dashes(s),
    decreases s.len(),
{
    if s.len() > 0 {
        assert(slug_char(s.last()));
        if s.last() == '-' {
            lemma_without_dashes(s.drop_last());
        }
    }
}

/// A suggested slug is a slug, unless it is empty.
pub proof fn law_suggested_slugs_are_valid(title: Seq<char>)
    ensures
        slug_of(title).len() == 0 || valid_slug(slug_of(title)),
{
    lemma_dashed(title);
    let whole = without_dashes(dashed(title));
    lemma_without_dashes(dashed(title));
    if whole.len() > MAX_SLUG {
        let cut = whole.take(MAX_SLUG as int);
        assert forall|i: int| 0 <= i < cut.len() implies slug_char(#[trigger] cut[i]) by {
            assert(slug_char(whole[i]));
        }
        lemma_without_dashes(cut);
    }
}

/// Whether `s` is made of slug characters without two `-` in a row.
pub open spec fn singly_dashed(s: Seq<char>) -> bool {
    &&& forall|i: int| 0 <= i < s.len() ==> slug_char(#[trigger] s[i])
    &&& forall|i: int| #![trigger s[i]] 0 <= i < s.len() - 1 && s[i] == '-' ==> s[i + 1] != '-'
}

proof fn lemma_dashed_is_single(title: Seq<char>)
    ensures
        singly_dashed(dashed(title)),
    decreases title.len(),
{
    if title.len() > 0 {
        lemma_dashed_is_single(title.drop_last());
        lemma_dashed(title);
    }
}

proof fn lemma_dashed_keeps(s: Seq<char>)
    requires
        singly_dashed(s),
        s.len() > 0 ==> slug_edge(s[0]),
    ensures
        dashed(s) == s,
    decreases s.len(),
{
    if s.len() > 0 {
        let front = s.drop_last();
        assert forall|i: int| 0 <= i < front.len() implies slug_char(#[trigger] front[i]) by {
            assert(slug_char(s[i]));
        }
        assert forall|i: int| #![trigger front[i]]
            0 <= i < front.len() - 1 && front[i] == '-' implies front[i + 1] != '-' by {
            assert(s[i] == '-');
        }
        lemma_dashed_keeps(front);
        assert(slug_char(s.last()));
        assert(ascii_lower_of(s.last()) == s.last());
        if s.last() == '-' {
            assert(s.len() > 1);
            assert(front.last() == s[s.len() - 2]);
        }
        assert(dashed(s) =~= s);
    }
}

proof fn lemma_cut_is_single(s: Seq<char>, n: int)
    requires
        singly_dashed(s),
        0 <= n <= s.len(),
    ensures
        singly_dashed(s.take(n)),
{
    assert forall|i: int| 0 <= i < n implies slug_char(#[trigger] s.take(n)[i]) by {
        assert(slug_char(s[i]));
    }
    assert forall|i: int| #![trigger s.take(n)[i]]
        0 <= i < n - 1 && s.take(n)[i] == '-' implies s.take(n)[i + 1] != '-' by {
        assert(s[i] == '-');
    }
}

proof fn lemma_without_dashes_is_take(s: Seq<char>)
    ensures
        without_dashes(s) == s.take(without_dashes(s).len() as int),
        without_dashes(s).len() <= s.len(),
    decreases s.len(),
{
    if s.len() > 0 && s.last() == '-' {
        lemma_without_dashes_is_take(s.drop_last());
        let n = without_dashes(s).len() as int;
        assert(s.drop_last().take(n) =~= s.take(n));
    } else {
        assert(s.take(s.len() as int) =~= s);
    }
}

/// A slug that was suggested once suggests itself.
pub proof fn law_suggesting_settles(title: Seq<char>)
    ensures
        slug_of(slug_of(title)) == slug_of(title),
{
    let whole = without_dashes(dashed(title));
    lemma_dashed(title);
    lemma_dashed_is_single(title);
    lemma_without_dashes(dashed(title));
    lemma_without_dashes_is_take(dashed(title));
    lemma_cut_is_single(dashed(title), whole.len() as int);
    if whole.len() > MAX_SLUG {
        let cut = whole.take(MAX_SLUG as int);
        lemma_cut_is_single(whole, MAX_SLUG as int);
        assert(slug_like(cut));
        lemma_without_dashes(cut);
        lemma_without_dashes_is_take(cut);
        lemma_cut_is_single(cut, without_dashes(cut).len() as int);
    }
    law_suggested_slugs_are_valid(title);
    let slug = slug_of(title);
    lemma_dashed_keeps(slug);
    assert(slug.len() == 0 || slug.last() != '-');
}

/// `c` with `a` to `z` mapped to `A` to `Z`.
pub open spec fn capital(c: char) -> char {
    if ascii_lower(c) {
        (c as int - 32) as char
    } else {
        c
    }
}

/// The title that a slug suggests: its words with a capital each.
pub open spec fn title_of_slug(slug: Seq<char>) -> Seq<char> {
    Seq::new(
        slug.len(),
        |i: int|
            if slug[i] == '-' {
                ' '
            } else if i == 0 || slug[i - 1] == '-' {
                capital(slug[i])
            } else {
                slug[i]
            },
    )
}

/// The title that a slug suggests.
pub fn title_from_slug(slug: &str) -> (r: String)
    ensures
        r@ == title_of_slug(slug@),
{
    let v = chars_of(slug);
    let mut r = String::new();
    let mut i: usize = 0;
    while i < v.len()
        invariant
            i <= v@.len(),
            v@ == slug@,
            r@ =~= title_of_slug(slug@).take(i as int),
        decreases v@.len() - i,
    {
        let c = v[i];
        if c == '-' {
            r.push(' ');
        } else if (i == 0 || v[i - 1] == '-') && 'a' <= c && c <= 'z' {
            r.push((c as u8 - 32) as char);
        } else {
            r.push(c);
        }
        i = i + 1;
    }
    r
}

// ---------------------------------------------------------------------------
// Placeholders
// ---------------------------------------------------------------------------

/// How much of a file is looked at to tell text from binary.
pub const SNIFFED: usize = 8192;

/// Whether a file looks like text: no zero byte among its first 8 KiB.
pub open spec fn textual(bytes: Seq<u8>) -> bool {
    forall|i: int| 0 <= i < bytes.len() && i < SNIFFED ==> #[trigger] bytes[i] != 0
}

/// Whether a file looks like text.
pub fn looks_like_text(bytes: &[u8]) -> (r: bool)
    ensures
        r == textual(bytes@),
{
    let mut i: usize = 0;
    while i < bytes.len() && i < SNIFFED
        invariant
            i <= bytes@.len(),
            forall|j: int| 0 <= j < i ==> #[trigger] bytes@[j] != 0,
        decreases bytes@.len() - i,
    {
        if bytes[i] == 0 {
            return false;
        }
        i = i + 1;
    }
    true
}

/// The placeholders of the template, and whether a text holds one.
pub open spec fn has_placeholder(text: Seq<char>) -> bool {
    contains(text, "replace-with-project"@) || contains(text, "replace_with_project"@)
}

/// A text with the placeholders filled in.
pub open spec fn filled_in(text: Seq<char>, dashed: Seq<char>, underscored: Seq<char>) -> Seq<char> {
    replace(
        replace(text, "replace-with-project"@, dashed),
        "replace_with_project"@,
        underscored,
    )
}

/// What a file of the template is rewritten to, if it is.
pub open spec fn rewritten(bytes: Seq<u8>, dashed: Seq<char>, underscored: Seq<char>) -> Option<
    Seq<char>,
> {
    if textual(bytes) && valid_utf8(bytes) && has_placeholder(decode_utf8(bytes)) {
        Some(filled_in(decode_utf8(bytes), dashed, underscored))
    } else {
        None
    }
}

/// What a file of the template is rewritten to; `None` where it stays as it is: a binary
/// file, one that is not UTF-8, and one without placeholders.
pub fn substitute_placeholders(bytes: &[u8], dashed: &str, underscored: &str) -> (r: Option<String>)
    ensures
        opt_text(r) == if textual(bytes@) && valid_utf8(bytes@) && has_placeholder(
            decode_utf8(bytes@),
        ) {
            Some(filled_in(decode_utf8(bytes@), dashed@, underscored@))
        } else {
            None
        },
        opt_text(r) == rewritten(bytes@, dashed@, underscored@),
{
    if !looks_like_text(bytes) {
        return None;
    }
    let content = match utf8_text(bytes) {
        Some(content) => content,
        None => {
            return None;
        },
    };
    if !mentions(content.as_str(), "replace-with-project") && !mentions(
        content.as_str(),
        "replace_with_project",
    ) {
        return None;
    }
    proof {
        reveal_strlit("replace-with-project");
        reveal_strlit("replace_with_project");
    }
    let once = replaced(content.as_str(), "replace-with-project", dashed);
    Some(replaced(once.as_str(), "replace_with_project", underscored))
}

/// `s` with every `-` as `_`.
pub open spec fn underscored(s: Seq<char>) -> Seq<char> {
    s.map_values(
        |c: char|
            if c == '-' {
                '_'
            } else {
                c
            },
    )
}

/// `slug` with every `-` as `_`.
pub fn underscored_slug(slug: &str) -> (r: String)
    ensures
        r@ == underscored(slug@),
{
    let v = chars_of(slug);
    let mut r = String::new();
    let mut i: usize = 0;
    while i < v.len()
        invariant
            i <= v@.len(),
            v@ == slug@,
            r@ =~= underscored(slug@).take(i as int),
        decreases v@.len() - i,
    {
        if v[i] == '-' {
            r.push('_');
        } else {
            r.push(v[i]);
        }
        i = i + 1;
    }
    r
}

// ---------------------------------------------------------------------------
// The files of the template
// ---------------------------------------------------------------------------

/// Something in a directory. A file is known by the number it was given when the directory
/// was read.
#[derive(Debug)]
pub enum Node {
    File(u64),
    Dir { name: String, entries: Vec<Node> },
    /// A link or a device.
    Other,
}

/// The files in some entries, in order, with those of subdirectories in their place.
/// `.git` is not looked into.
pub open spec fn files_in(entries: Seq<Node>) -> Seq<u64>
    decreases entries, 0int,
{
    if entries.len() == 0 {
        Seq::empty()
    } else {
        files_in(entries.drop_last()) + files_of(entries.last())
    }
}

/// The files that one entry holds.
pub open spec fn files_of(node: Node) -> Seq<u64>
    decreases node, 1int,
{
    match node {
        Node::File(id) => seq![id],
        Node::Dir { name, entries } => if name@ == ".git"@ {
            Seq::empty()
        } else {
            files_in(entries@)
        },
        Node::Other => Seq::empty(),
    }
}

/// Whether a directory of this name is looked into.
pub fn is_walked(name: &str) -> (r: bool)
    ensures
        r == (name@ != ".git"@),
{
    !same(name, ".git")
}

fn walk(entries: &Vec<Node>, out: &mut Vec<u64>)
    ensures
        final(out)@ == old(out)@ + files_in(entries@),
    decreases entries,
{
    let ghost before = out@;
    let mut i: usize = 0;
    proof {
        assert(entries@.take(0) =~= Seq::<Node>::empty());
        assert(before + Seq::<u64>::empty() =~= before);
    }
    while i < entries.len()
        invariant
            i <= entries@.len(),
            out@ == before + files_in(entries@.take(i as int)),
        decreases entries@.len() - i,
    {
        let ghost so_far = out@;
        let ghost next = entries@.take(i + 1);
        proof {
            assert(next.drop_last() =~= entries@.take(i as int));
            assert(next.last() == entries@[i as int]);
        }
        match &entries[i] {
            Node::File(id) => {
                out.push(*id);
                proof {
                    assert(out@ =~= so_far + seq![*id]);
                }
            },
            Node::Dir { name, entries: inner } => {
                if is_walked(name.as_str()) {
                    walk(inner, out);
                } else {
                    proof {
                        assert(out@ =~= so_far + Seq::<u64>::empty());
                    }
                }
            },
            Node::Other => {
                proof {
                    assert(out@ =~= so_far + Seq::<u64>::empty());
                }
            },
        }
        proof {
            assert(out@ =~= before + (files_in(entries@.take(i as int)) + files_of(
                entries@[i as int],
            )));
        }
        i = i + 1;
    }
    proof {
        assert(entries@.take(i as int) =~= entries@);
    }
}

/// The files of a workspace in which placeholders are looked for.
pub fn collect_text_files(root: &Vec<Node>) -> (r: Vec<u64>)
    ensures
        r@ == files_in(root@),
{
    let mut out: Vec<u64> = Vec::new();
    walk(root, &mut out);
    proof {
        assert(Seq::<u64>::empty() + files_in(root@) =~= files_in(root@));
    }
    out
}

// ---------------------------------------------------------------------------
// The steps of scaffolding
// ---------------------------------------------------------------------------

/// The configuration of a fresh workspace. The title is only written where the user gave
/// or confirmed one, so that a later deploy does not overwrite a title set elsewhere.
pub open spec fn fresh_config(slug: Seq<char>, title: Option<Seq<char>>) -> Seq<char> {
    let titled = match title {
        Some(title) => ",\n  \"title\": "@ + json_literal(title),
        None => Seq::empty(),
    };
    "{\n  \"database\": \"none\",\n  \"local_dev\": {\n    \"auto_commit\": true\n  },\n  \"project\": "@
        + json_literal(slug) + titled + "\n}\n"@
}

/// The file that the configuration of a fresh workspace is written to.
pub fn fresh_config_name() -> (r: &'static str)
    ensures
        r@ == "gbandit.json"@,
{
    "gbandit.json"
}

/// The configuration of a fresh workspace.
pub fn write_gbandit_json(slug: &str, title: Option<&str>) -> (r: String)
    ensures
        r@ == fresh_config(slug@, opt_str(title)),
{
    let mut r =
        "{\n  \"database\": \"none\",\n  \"local_dev\": {\n    \"auto_commit\": true\n  },\n  \"project\": ".to_string();
    r.append(json_string(slug).as_str());
    let titled = match title {
        Some(title) => ",\n  \"title\": ".to_string().concat(json_string(title).as_str()),
        None => String::new(),
    };
    r.append(titled.as_str());
    r.append("\n}\n");
    r
}

/// A step of scaffolding.
#[derive(Debug)]
pub enum ScaffoldStep {
    /// Create the target directory.
    CreateTarget,
    /// Stop unless the target directory is empty.
    RequireEmpty,
    /// Show a progress line.
    Say(String),
    /// Clone the template from this address.
    Clone(String),
    /// Throw the template's history away, so that the workspace starts its own.
    DropHistory,
    /// Copy the template into the target.
    CopyTemplate,
    /// Fill the placeholders in, with the slug as it is and with underscores.
    Substitute { dashed: String, underscored: String },
    /// Write the configuration.
    WriteConfig(String),
    /// Run `git` in the target with these arguments.
    Git(Vec<String>),
}

/// A [`ScaffoldStep`], as characters.
pub enum StepView {
    CreateTarget,
    RequireEmpty,
    Say(Seq<char>),
    Clone(Seq<char>),
    DropHistory,
    CopyTemplate,
    Substitute { dashed: Seq<char>, underscored: Seq<char> },
    WriteConfig(Seq<char>),
    Git(Seq<Seq<char>>),
}

impl View for ScaffoldStep {
    type V = StepView;

    open spec fn view(&self) -> StepView {
        match self {
            ScaffoldStep::CreateTarget => StepView::CreateTarget,
            ScaffoldStep::RequireEmpty => StepView::RequireEmpty,
            ScaffoldStep::Say(text) => StepView::Say(text@),
            ScaffoldStep::Clone(url) => StepView::Clone(url@),
            ScaffoldStep::DropHistory => StepView::DropHistory,
            ScaffoldStep::CopyTemplate => StepView::CopyTemplate,
            ScaffoldStep::Substitute { dashed, underscored } => StepView::Substitute {
                dashed: dashed@,
                underscored: underscored@,
            },
            ScaffoldStep::WriteConfig(text) => StepView::WriteConfig(text@),
            ScaffoldStep::Git(args) => StepView::Git(texts(args@)),
        }
    }
}

/// The address that the template is cloned from: what was set, or the default.
pub open spec fn template_url(var: Option<Seq<char>>) -> Seq<char> {
    match var {
        Some(url) => url,
        None => "https://github.com/HectorBjernersjo/gbandit-game"@,
    }
}

/// The steps that start the workspace's own history.
pub open spec fn history_steps() -> Seq<StepView> {
    seq![
        StepView::Say("Initialising git repo with initial commit..."@),
        StepView::Git(seq!["init"@, "-b"@, "main"@]),
        StepView::Git(seq!["add"@, "-A"@]),
        StepView::Git(seq!["commit"@, "-m"@, "Initial commit from gbandit-game template"@]),
    ]
}

/// The steps of scaffolding a project.
pub open spec fn scaffold_steps(
    slug: Seq<char>,
    url: Seq<char>,
    title: Option<Seq<char>>,
    init_git: bool,
) -> Seq<StepView> {
    let workspace = seq![
        StepView::CreateTarget,
        StepView::RequireEmpty,
        StepView::Say("Cloning template from "@ + url + "..."@),
        StepView::Clone(url),
        StepView::DropHistory,
        StepView::CopyTemplate,
        StepView::Substitute { dashed: slug, underscored: underscored(slug) },
        StepView::WriteConfig(fresh_config(slug, title)),
    ];
    if init_git {
        workspace + history_steps()
    } else {
        workspace
    }
}

/// A list of steps, as characters.
pub open spec fn step_views(steps: Seq<ScaffoldStep>) -> Seq<StepView> {
    steps.map_values(|s: ScaffoldStep| s@)
}

/// The characters of a list of words.
spec fn words(args: Seq<&str>) -> Seq<Seq<char>> {
    args.map_values(|a: &str| a@)
}

fn git_step(args: &[&str]) -> (r: ScaffoldStep)
    ensures
        r@ == StepView::Git(words(args@)),
{
    let mut list: Vec<String> = Vec::new();
    let mut i: usize = 0;
    while i < args.len()
        invariant
            i <= args@.len(),
            texts(list@) =~= words(args@).take(i as int),
        decreases args@.len() - i,
    {
        let ghost before = texts(list@);
        let arg = args[i].to_string();
        list.push(arg);
        proof {
            assert(texts(list@) =~= before.push(arg@));
        }
        i = i + 1;
    }
    proof {
        assert(words(args@).take(i as int) =~= words(args@));
    }
    ScaffoldStep::Git(list)
}

fn push_step(steps: &mut Vec<ScaffoldStep>, step: ScaffoldStep)
    ensures
        step_views(final(steps)@) == step_views(old(steps)@).push(step@),
{
    let ghost before = steps@;
    steps.push(step);
    proof {
        assert(step_views(steps@) =~= step_views(before).push(step@));
    }
}

/// The steps of scaffolding a project, to be taken in order until one fails. `template` is
/// what `GBANDIT_GAME_REPO_URL` is set to.
pub fn scaffold_project(
    slug: &str,
    template: Option<String>,
    title: Option<&str>,
    init_git: bool,
) -> (r: Result<Vec<ScaffoldStep>, String>)
    ensures
        match r {
            Ok(steps) => valid_slug(slug@) && step_views(steps@) == scaffold_steps(
                slug@,
                template_url(opt_text(template)),
                opt_str(title),
                init_git,
            ),
            Err(m) => !valid_slug(slug@) && m@ == "invalid slug '"@ + slug@
                + "': must be 1–63 chars, start/end with [a-z0-9], contain only [a-z0-9-]"@,
        },
{
    if !is_valid_slug(slug) {
        return Err(
            "invalid slug '".to_string().concat(slug).concat(
                "': must be 1–63 chars, start/end with [a-z0-9], contain only [a-z0-9-]",
            ),
        );
    }
    let url = match template {
        Some(url) => url,
        None => "https://github.com/HectorBjernersjo/gbandit-game".to_string(),
    };
    let cloning = "Cloning template from ".to_string().concat(url.as_str()).concat("...");
    let mut steps: Vec<ScaffoldStep> = Vec::new();
    let ghost wanted = scaffold_steps(
        slug@,
        template_url(opt_text(template)),
        opt_str(title),
        init_git,
    );
    proof {
        assert(step_views(steps@) =~= Seq::<StepView>::empty());
    }
    push_step(&mut steps, ScaffoldStep::CreateTarget);
    push_step(&mut steps, ScaffoldStep::RequireEmpty);
    push_step(&mut steps, ScaffoldStep::Say(cloning));
    push_step(&mut steps, ScaffoldStep::Clone(url));
    push_step(&mut steps, ScaffoldStep::DropHistory);
    push_step(&mut steps, ScaffoldStep::CopyTemplate);
    push_step(
        &mut steps,
        ScaffoldStep::Substitute { dashed: slug.to_string(), underscored: underscored_slug(slug) },
    );
    push_step(&mut steps, ScaffoldStep::WriteConfig(write_gbandit_json(slug, title)));
    if init_git {
        push_step(
            &mut steps,
            ScaffoldStep::Say("Initialising git repo with initial commit...".to_string()),
        );
        let init = git_step(&["init", "-b", "main"]);
        let add = git_step(&["add", "-A"]);
        let commit = git_step(&["commit", "-m", "Initial commit from gbandit-game template"]);
        proof {
            assert(init@->Git_0 =~= seq!["init"@, "-b"@, "main"@]);
            assert(add@->Git_0 =~= seq!["add"@, "-A"@]);
            assert(commit@->Git_0 =~= seq![
                "commit"@,
                "-m"@,
                "Initial commit from gbandit-game template"@,
            ]);
        }
        push_step(&mut steps, init);
        push_step(&mut steps, add);
        push_step(&mut steps, commit);
    }
    proof {
        assert(step_views(steps@) =~= wanted);
    }
    Ok(steps)
}

/// What to say of a target directory that is not empty.
pub fn target_not_empty(target: &str) -> (r: String)
    ensures
        r@ == "target directory "@ + target@ + " is not empty — scaffold refuses to overwrite"@,
{
    "target directory ".to_string().concat(target).concat(
        " is not empty — scaffold refuses to overwrite",
    )
}

/// The arguments that clone the template into `dst`.
pub fn clone_args(url: &str, dst: &str) -> (r: Vec<String>)
    ensures
        texts(r@) == seq!["clone"@, "--depth=1"@, url@, dst@],
{
    let mut r: Vec<String> = Vec::new();
    r.push("clone".to_string());
    r.push("--depth=1".to_string());
    r.push(url.to_string());
    r.push(dst.to_string());
    proof {
        assert(texts(r@) =~= seq!["clone"@, "--depth=1"@, url@, dst@]);
    }
    r
}

/// What to say when `git` could not be started.
pub fn git_not_started(args: &Vec<String>) -> (r: String)
    ensures
        r@ == "failed to spawn `git "@ + join(texts(args@), " "@) + "`"@,
{
    "failed to spawn `git ".to_string().concat(joined(args, " ").as_str()).concat("`")
}

/// What to say when `git` ended badly; `status` is how it ended.
pub fn git_failed(args: &Vec<String>, status: &str) -> (r: String)
    ensures
        r@ == "`git "@ + join(texts(args@), " "@) + "` failed with status "@ + status@,
{
    "`git ".to_string().concat(joined(args, " ").as_str()).concat("` failed with status ").concat(
        status,
    )
}

/// Nothing is written before the target is known to be empty, and the history starts last,
/// when everything is in place.
pub proof fn law_scaffold_never_overwrites(
    slug: Seq<char>,
    url: Seq<char>,
    title: Option<Seq<char>>,
    init_git: bool,
    i: int,
)
    requires
        0 <= i < scaffold_steps(slug, url, title, init_git).len(),
    ensures
        ({
            let steps = scaffold_steps(slug, url, title, init_git);
            &&& steps[i] is CopyTemplate || steps[i] is Substitute || steps[i] is WriteConfig
                || steps[i] is Git ==> i > 1 && steps[1] is RequireEmpty
            &&& steps[i] is Git ==> forall|j: int|
                i <= j < steps.len() ==> #[trigger] steps[j] is Git
        }),
{
}

// ---------------------------------------------------------------------------
// Laws
// ---------------------------------------------------------------------------

/// A slug has at most 63 characters, each a small letter or a digit, or a `-` that does not
/// stand at an end; and every such text is a slug.
pub proof fn law_what_slugs_are_made_of(s: Seq<char>)
    ensures
        valid_slug(s) <==> 1 <= s.len() <= 63 && forall|i: int|
            0 <= i < s.len() ==> 'a' <= #[trigger] s[i] <= 'z' || '0' <= s[i] <= '9' || (s[i] == '-'
                && 0 < i < s.len() - 1),
{
    let fine = forall|i: int|
        0 <= i < s.len() ==> 'a' <= #[trigger] s[i] <= 'z' || '0' <= s[i] <= '9' || (s[i] == '-'
            && 0 < i < s.len() - 1);
    if valid_slug(s) {
        assert forall|i: int| 0 <= i < s.len() implies 'a' <= #[trigger] s[i] <= 'z' || '0' <= s[i]
            <= '9' || (s[i] == '-' && 0 < i < s.len() - 1) by {
            assert(slug_char(s[i]));
        }
    }
    if fine && 1 <= s.len() <= 63 {
        assert(slug_edge(s[0]));
        assert(slug_edge(s[s.len() - 1]));
        assert forall|i: int| 0 <= i < s.len() implies slug_char(#[trigger] s[i]) by {}
    }
}

/// Whether a title's character goes into its slug.
pub open spec fn counts(c: char) -> bool {
    'a' <= c <= 'z' || 'A' <= c <= 'Z' || '0' <= c <= '9'
}

proof fn lemma_what_counts(c: char)
    ensures
        slug_edge(ascii_lower_of(c)) <==> counts(c),
{
}

proof fn lemma_dashed_behind(front: Seq<char>, word: Seq<char>)
    requires
        word.len() > 0,
        counts(word[0]) || dashed(front).len() == 0,
    ensures
        dashed(front + word) == dashed(front) + dashed(word),
        counts(word[0]) ==> dashed(word).len() > 0,
    decreases word.len(),
{
    lemma_what_counts(word[0]);
    let before = word.drop_last();
    assert((front + word).drop_last() =~= front + before);
    assert((front + word).last() == word.last());
    if before.len() > 0 {
        assert(before[0] == word[0]);
        lemma_dashed_behind(front, before);
    } else {
        assert(front + before =~= front);
        assert(dashed(before) =~= Seq::<char>::empty());
    }
    assert(dashed(front + word) =~= dashed(front) + dashed(word));
}

proof fn lemma_dashed_gap(front: Seq<char>, gap: Seq<char>)
    requires
        forall|i: int| 0 <= i < gap.len() ==> !counts(#[trigger] gap[i]),
    ensures
        ({
            let start = dashed(front);
            dashed(front + gap) == if gap.len() > 0 && start.len() > 0 && start.last() != '-' {
                start.push('-')
            } else {
                start
            }
        }),
    decreases gap.len(),
{
    if gap.len() == 0 {
        assert(front + gap =~= front);
    } else {
        let before = gap.drop_last();
        assert forall|i: int| 0 <= i < before.len() implies !counts(#[trigger] before[i]) by {
            assert(before[i] == gap[i]);
        }
        lemma_dashed_gap(front, before);
        assert((front + gap).drop_last() =~= front + before);
        assert((front + gap).last() == gap.last());
        assert(!counts(gap[gap.len() - 1]));
        lemma_what_counts(gap.last());
    }
}

/// Two words of a title become two words of its slug, with one `-` for whatever stands in
/// between.
pub proof fn law_words_are_joined_by_dashes(first: Seq<char>, gap: Seq<char>, second: Seq<char>)
    requires
        first.len() > 0 && counts(first.last()),
        second.len() > 0 && counts(second[0]) && counts(second.last()),
        gap.len() > 0,
        forall|i: int| 0 <= i < gap.len() ==> !counts(#[trigger] gap[i]),
        slug_of(first + gap + second).len() < 62,
    ensures
        slug_of(first + gap + second) == slug_of(first) + seq!['-'] + slug_of(second),
{
    let all = first + gap + second;
    lemma_what_counts(first.last());
    lemma_what_counts(second.last());
    lemma_dashed_gap(first, gap);
    lemma_dashed_behind(first + gap, second);
    assert(dashed(first).last() == ascii_lower_of(first.last()));
    assert(dashed(second).last() == ascii_lower_of(second.last()));
    assert(dashed(all) == dashed(first).push('-') + dashed(second));
    assert(dashed(all).last() == dashed(second).last());
    assert(without_dashes(dashed(all)) == dashed(all));
    law_long_slugs_are_cut(all);
    assert(dashed(all) =~= dashed(first) + seq!['-'] + dashed(second));
}

/// What stands around the letters and digits of a title makes no difference to its slug.
pub proof fn law_the_ends_of_a_title_are_dropped(
    before: Seq<char>,
    title: Seq<char>,
    after: Seq<char>,
)
    requires
        forall|i: int| 0 <= i < before.len() ==> !counts(#[trigger] before[i]),
        forall|i: int| 0 <= i < after.len() ==> !counts(#[trigger] after[i]),
    ensures
        slug_of(before + title + after) == slug_of(title),
        slug_of(before + after).len() == 0,
{
    let none = Seq::<char>::empty();
    lemma_dashed_gap(none, before);
    assert(none + before =~= before);
    assert(dashed(before).len() == 0);
    lemma_dashed_gap(before, after);
    if title.len() == 0 {
        assert(before + title =~= before);
    } else {
        lemma_dashed_behind(before, title);
        assert(dashed(before) + dashed(title) =~= dashed(title));
    }
    lemma_dashed_gap(before + title, after);
    let d = dashed(title);
    if dashed(before + title + after) != d {
        assert(d.push('-').drop_last() =~= d);
        assert(without_dashes(d.push('-')) == without_dashes(d));
    }
    assert(without_dashes(none) == none);
}

/// A word of letters and digits keeps them all, in lower case.
pub proof fn law_words_are_kept(word: Seq<char>, i: int)
    requires
        forall|i: int| 0 <= i < word.len() ==> counts(#[trigger] word[i]),
        word.len() <= 63,
        0 <= i < word.len(),
    ensures
        slug_of(word).len() == word.len(),
        'A' <= word[i] <= 'Z' ==> slug_of(word)[i] as int == word[i] as int + 32,
        !('A' <= word[i] <= 'Z') ==> slug_of(word)[i] == word[i],
{
    lemma_word(word);
    assert(counts(word[word.len() - 1]));
    lemma_what_counts(word.last());
    assert(dashed(word).last() == ascii_lower_of(word.last()));
}

proof fn lemma_word(word: Seq<char>)
    requires
        forall|i: int| 0 <= i < word.len() ==> counts(#[trigger] word[i]),
    ensures
        dashed(word).len() == word.len(),
        forall|i: int| 0 <= i < word.len() ==> #[trigger] dashed(word)[i] == ascii_lower_of(word[i]),
    decreases word.len(),
{
    if word.len() > 0 {
        let before = word.drop_last();
        assert forall|i: int| 0 <= i < before.len() implies counts(#[trigger] before[i]) by {
            assert(before[i] == word[i]);
        }
        lemma_word(before);
        assert(counts(word[word.len() - 1]));
        lemma_what_counts(word.last());
        assert forall|i: int| 0 <= i < word.len() implies #[trigger] dashed(word)[i]
            == ascii_lower_of(word[i]) by {
            if i < before.len() {
                assert(dashed(word)[i] == dashed(before)[i]);
            }
        }
    }
}

/// A slug that would be too long is cut, and not shorter than it must be: it keeps the 63
/// characters that it may have, but for a `-` that would be left at its end.
pub proof fn law_long_slugs_are_cut(title: Seq<char>)
    ensures
        without_dashes(dashed(title)).len() <= 63 ==> slug_of(title) == without_dashes(
            dashed(title),
        ),
        without_dashes(dashed(title)).len() > 63 ==> 62 <= slug_of(title).len() <= 63,
        slug_of(title) == dashed(title).take(slug_of(title).len() as int),
        slug_of(title).len() <= dashed(title).len(),
{
    let all = dashed(title);
    let whole = without_dashes(all);
    lemma_dashed(title);
    lemma_dashed_is_single(title);
    lemma_without_dashes_is_take(all);
    if whole.len() > 63 {
        let cut = whole.take(63);
        lemma_without_dashes_is_take(cut);
        assert(cut[62] == all[62] && cut[61] == all[61]);
        if cut.last() == '-' {
            let less = cut.drop_last();
            assert(less.last() == all[61]);
            if all[61] == '-' {
                assert(all[62] != '-');
            }
            assert(without_dashes(less) == less);
        }
        let n = slug_of(title).len() as int;
        assert(cut.take(n) =~= all.take(n));
    }
}

proof fn lemma_title_of_front(slug: Seq<char>)
    requires
        slug.len() > 0,
    ensures
        title_of_slug(slug).drop_last() == title_of_slug(slug.drop_last()),
{
    assert(title_of_slug(slug).drop_last() =~= title_of_slug(slug.drop_last()));
}

proof fn lemma_titles_read_back(slug: Seq<char>)
    requires
        singly_dashed(slug),
        slug.len() > 0 ==> slug_edge(slug[0]),
    ensures
        dashed(title_of_slug(slug)) == slug,
    decreases slug.len(),
{
    if slug.len() > 0 {
        let front = slug.drop_last();
        lemma_cut_is_single(slug, slug.len() - 1);
        assert(front =~= slug.take(slug.len() - 1));
        lemma_titles_read_back(front);
        lemma_title_of_front(slug);
        assert(slug_char(slug[slug.len() - 1]));
        let c = slug.last();
        assert(title_of_slug(slug).last() == title_of_slug(slug)[slug.len() - 1]);
        if c == '-' {
            assert(front.len() > 0);
            assert(front.last() == slug[slug.len() - 2]);
            assert(front.last() != '-');
        } else {
            assert(ascii_lower_of(c) == c);
            assert(ascii_lower_of(capital(c)) == c);
        }
        assert(dashed(title_of_slug(slug)) =~= front.push(c));
        assert(front.push(c) =~= slug);
    }
}

/// The title that a slug suggests suggests the slug, wherever it has no two `-` in a row.
pub proof fn law_suggested_titles_suggest_their_slug(slug: Seq<char>)
    requires
        valid_slug(slug),
        singly_dashed(slug),
    ensures
        slug_of(title_of_slug(slug)) == slug,
{
    lemma_titles_read_back(slug);
    assert(slug.last() != '-');
}

/// A suggested title is as long as the slug; each of its words begins with a capital where it
/// begins with a letter, and all else is as in the slug.
pub proof fn law_titles_have_capital_words(slug: Seq<char>, i: int)
    requires
        0 <= i < slug.len(),
    ensures
        title_of_slug(slug).len() == slug.len(),
        slug[i] == '-' ==> title_of_slug(slug)[i] == ' ',
        'a' <= slug[i] <= 'z' && (i == 0 || slug[i - 1] == '-') ==> title_of_slug(slug)[i] as int
            == slug[i] as int - 32,
        slug[i] != '-' && i > 0 && slug[i - 1] != '-' ==> title_of_slug(slug)[i] == slug[i],
        '0' <= slug[i] <= '9' ==> title_of_slug(slug)[i] == slug[i],
{
}

/// A file is no text where one of its first 8192 bytes is zero, and what stands behind those
/// makes no difference.
pub proof fn law_zero_bytes_make_no_text(bytes: Seq<u8>, more: Seq<u8>, i: int)
    ensures
        0 <= i < bytes.len() && i < 8192 && bytes[i] == 0 ==> !textual(bytes),
        !bytes.contains(0) ==> textual(bytes),
        bytes.len() >= 8192 ==> (textual(bytes + more) <==> textual(bytes)),
{
    if !bytes.contains(0) {
        assert forall|j: int| 0 <= j < bytes.len() && j < SNIFFED implies #[trigger] bytes[j]
            != 0 by {
            assert(bytes.contains(bytes[j]));
        }
    }
    if bytes.len() >= 8192 {
        assert forall|j: int| 0 <= j < 8192 implies (bytes + more)[j] == #[trigger] bytes[j] by {}
        if textual(bytes) {
            assert forall|j: int| 0 <= j < (bytes + more).len() && j < SNIFFED implies #[trigger] (
            bytes + more)[j] != 0 by {
                assert(bytes[j] != 0);
            }
        }
        if textual(bytes + more) {
            assert forall|j: int| 0 <= j < bytes.len() && j < SNIFFED implies #[trigger] bytes[j]
                != 0 by {
                assert((bytes + more)[j] != 0);
            }
        }
    }
}

/// A file stays as it is where it is binary, where it is no UTF-8, and where it has no
/// placeholder.
pub proof fn law_which_files_are_rewritten(bytes: Seq<u8>, slug: Seq<char>, under: Seq<char>)
    ensures
        rewritten(bytes, slug, under) is Some <==> textual(bytes) && valid_utf8(bytes) && (contains(
            decode_utf8(bytes),
            "replace-with-project"@,
        ) || contains(decode_utf8(bytes), "replace_with_project"@)),
{
}

proof fn lemma_nothing_to_replace(s: Seq<char>, from: Seq<char>, to: Seq<char>)
    requires
        from.len() > 0,
        !contains(s, from),
    ensures
        replace(s, from, to) == s,
    decreases s.len(),
{
    if s.len() > 0 {
        assert(!occurs_at(s, from, 0));
        let rest = s.skip(1);
        assert forall|i: int| !#[trigger] occurs_at(rest, from, i) by {
            if occurs_at(rest, from, i) {
                assert(s.subrange(i + 1, i + 1 + from.len()) =~= rest.subrange(i, i + from.len()));
                assert(occurs_at(s, from, i + 1));
            }
        }
        lemma_nothing_to_replace(rest, from, to);
        assert(replace(s, from, to) =~= s);
    } else {
        assert(replace(s, from, to) =~= s);
    }
}

/// Each placeholder is filled in with its own form of the slug: the one with dashes takes the
/// slug as it is, the one with underscores the other form.
pub proof fn law_placeholders_take_their_own_form(text: Seq<char>, slug: Seq<char>, under: Seq<char>)
    ensures
        !contains(text, "replace-with-project"@) ==> filled_in(text, slug, under) == replace(
            text,
            "replace_with_project"@,
            under,
        ),
        !contains(replace(text, "replace-with-project"@, slug), "replace_with_project"@)
            ==> filled_in(text, slug, under) == replace(text, "replace-with-project"@, slug),
        !has_placeholder(text) ==> filled_in(text, slug, under) == text,
{
    reveal_strlit("replace-with-project");
    reveal_strlit("replace_with_project");
    let p = "replace-with-project"@;
    let q = "replace_with_project"@;
    if !contains(text, p) {
        lemma_nothing_to_replace(text, p, slug);
    }
    if !contains(replace(text, p, slug), q) {
        lemma_nothing_to_replace(replace(text, p, slug), q, under);
    }
}

/// The form with underscores has one for each `-` and is the slug otherwise.
pub proof fn law_underscores_stand_for_dashes(slug: Seq<char>, i: int)
    requires
        0 <= i < slug.len(),
    ensures
        underscored(slug).len() == slug.len(),
        slug[i] == '-' ==> underscored(slug)[i] == '_',
        slug[i] != '-' ==> underscored(slug)[i] == slug[i],
{
}

/// Files are found in their order and wherever they stand, but for those below a `.git`.
pub proof fn law_files_are_found_in_order(above: Seq<Node>, below: Seq<Node>, node: Node, id: u64)
    ensures
        files_in(above + below) == files_in(above) + files_in(below),
        files_in(seq![node]) == files_of(node),
        files_of(Node::File(id)) == seq![id],
        node is Dir && node->name@ != ".git"@ ==> files_of(node) == files_in(node->entries@),
        node is Dir && node->name@ == ".git"@ ==> files_of(node).len() == 0,
        node is Other ==> files_of(node).len() == 0,
    decreases below.len(),
{
    assert(seq![node].drop_last() =~= Seq::<Node>::empty());
    assert(files_in(seq![node].drop_last()) =~= Seq::<u64>::empty());
    assert(files_in(seq![node]) =~= files_of(node));
    if below.len() == 0 {
        assert(above + below =~= above);
        assert(files_in(above) + Seq::<u64>::empty() =~= files_in(above));
    } else {
        assert((above + below).drop_last() =~= above + below.drop_last());
        assert((above + below).last() == below.last());
        law_files_are_found_in_order(above, below.drop_last(), node, id);
        assert(files_in(above + below) =~= files_in(above) + files_in(below));
    }
}

/// A fresh configuration names the project, and the title where there is one.
pub proof fn law_fresh_configurations_name_the_project(slug: Seq<char>, title: Seq<char>)
    ensures
        contains(fresh_config(slug, None), json_literal(slug)),
        contains(fresh_config(slug, Some(title)), json_literal(slug)),
        contains(fresh_config(slug, Some(title)), ",\n  \"title\": "@ + json_literal(title)),
        fresh_config(slug, Some(title)).len() == fresh_config(slug, None).len()
            + ",\n  \"title\": "@.len() + json_literal(title).len(),
{
    let head = "{\n  \"database\": \"none\",\n  \"local_dev\": {\n    \"auto_commit\": true\n  },\n  \"project\": "@;
    let name = json_literal(slug);
    let titled = ",\n  \"title\": "@ + json_literal(title);
    let none = Seq::<char>::empty();
    let end = "\n}\n"@;
    law_texts_contain_their_parts(head, name, none + end);
    assert(head + name + (none + end) =~= head + name + none + end);
    law_texts_contain_their_parts(head, name, titled + end);
    assert(head + name + (titled + end) =~= head + name + titled + end);
    law_texts_contain_their_parts(head + name, titled, end);
}

/// What is set as the template's address is what is cloned.
pub proof fn law_the_template_that_is_set_is_cloned(url: Seq<char>)
    ensures
        template_url(Some(url)) == url,
        template_url(None) == "https://github.com/HectorBjernersjo/gbandit-game"@,
{
}

/// A workspace is made of the template at the address, with the placeholders filled in from
/// the slug in both forms and a configuration for it, whether or not a history is begun; one
/// is begun only where that is asked for, and then with a commit of everything.
pub proof fn law_workspaces_are_made_of_the_template(
    slug: Seq<char>,
    url: Seq<char>,
    title: Option<Seq<char>>,
)
    ensures
        ({
            let plain = scaffold_steps(slug, url, title, false);
            let begun = scaffold_steps(slug, url, title, true);
            &&& plain.contains(StepView::Clone(url))
            &&& plain.contains(
                (StepView::Substitute { dashed: slug, underscored: underscored(slug) }),
            )
            &&& plain.last() == StepView::WriteConfig(fresh_config(slug, title))
            &&& forall|i: int| 0 <= i < plain.len() ==> !(#[trigger] plain[i] is Git)
            &&& forall|i: int|
                0 <= i < plain.len() && (#[trigger] plain[i] is CopyTemplate || plain[i] is Substitute)
                    ==> exists|j: int| 0 <= j < i && #[trigger] plain[j] is Clone
            &&& begun.take(plain.len() as int) == plain
            &&& begun.last() == StepView::Git(
                seq!["commit"@, "-m"@, "Initial commit from gbandit-game template"@],
            )
            &&& begun[begun.len() - 2] == StepView::Git(seq!["add"@, "-A"@])
        }),
{
    let plain = scaffold_steps(slug, url, title, false);
    let begun = scaffold_steps(slug, url, title, true);
    assert(plain[3] == StepView::Clone(url));
    assert(plain[6] == (StepView::Substitute { dashed: slug, underscored: underscored(slug) }));
    assert(begun.take(plain.len() as int) =~= plain);
}

} // verus!
