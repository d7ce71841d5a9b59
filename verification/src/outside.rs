//! What the crate takes from the standard library and from other crates on trust: each
//! item here makes one outside call, and its contract says what is relied on.

use vstd::prelude::*;
use vstd::utf8::*;

use std::io::Read;

use chrono::Timelike;

use crate::lines::split;
use crate::nesting::nesting;
use crate::numbers::decimal;
use crate::text::{opt_text, starts_with};

verus! {

// ---------------------------------------------------------------------------
// std: text
// ---------------------------------------------------------------------------

/// The text that [`String::from_utf8_lossy`] makes of a run of bytes.
pub uninterp spec fn utf8_lossy(bytes: Seq<u8>) -> Seq<char>;

/// [`String::from_utf8_lossy`]. The result depends on the bytes alone, and is their
/// decoding where they are valid UTF-8. How it marks what is not valid is left to the name.
#[verifier::external_body]
pub(crate) fn lossy(bytes: &[u8]) -> (s: String)
    ensures
        s@ == utf8_lossy(bytes@),
        valid_utf8(bytes@) ==> s@ == decode_utf8(bytes@),
{
    String::from_utf8_lossy(bytes).into_owned()
}

/// [`std::str::from_utf8`]. It succeeds exactly on valid UTF-8, with the decoded text.
#[verifier::external_body]
pub(crate) fn utf8_text(bytes: &[u8]) -> (s: Option<String>)
    ensures
        opt_text(s) == if valid_utf8(bytes@) {
            Some(decode_utf8(bytes@))
        } else {
            None
        },
{
    std::str::from_utf8(bytes).ok().map(str::to_string)
}

/// The lower-case form of a text, by the Unicode tables that std was built with.
pub uninterp spec fn lower(s: Seq<char>) -> Seq<char>;

/// [`str::to_lowercase`]. The result depends on the text alone.
#[verifier::external_body]
pub(crate) fn lowercase(s: &str) -> (r: String)
    ensures
        r@ == lower(s@),
{
    s.to_lowercase()
}

/// The upper-case form of a text, by the Unicode tables that std was built with.
pub uninterp spec fn upper(s: Seq<char>) -> Seq<char>;

/// [`str::to_uppercase`]. The result depends on the text alone.
#[verifier::external_body]
pub(crate) fn uppercase(s: &str) -> (r: String)
    ensures
        r@ == upper(s@),
{
    s.to_uppercase()
}

// ---------------------------------------------------------------------------
// reqwest
// ---------------------------------------------------------------------------

/// An HTTP status as `reqwest::StatusCode` displays it.
pub uninterp spec fn status_display(code: u16) -> Seq<char>;

/// The text of `reqwest::StatusCode`'s `Display`: the code in decimal, a blank, and the
/// standard reason phrase, or a note that the code is unknown. Which phrase belongs to
/// which code is left to the name.
#[verifier::external_body]
pub(crate) fn status_line(code: u16) -> (r: String)
    requires
        100 <= code <= 999,
    ensures
        r@ == status_display(code),
        starts_with(r@, decimal(code as int).push(' ')),
{
    reqwest::StatusCode::from_u16(code).unwrap().to_string()
}

/// The host of a URL, where the text is a URL that has one.
pub uninterp spec fn host_of(url: Seq<char>) -> Option<Seq<char>>;

/// `reqwest::Url::parse` and `Url::host_str`: the host that the text names as a URL, and
/// nothing where it is no URL or has no host. The URL grammar is left to the name.
#[verifier::external_body]
pub(crate) fn url_host(url: &str) -> (r: Option<String>)
    ensures
        opt_text(r) == host_of(url@),
{
    let parsed = reqwest::Url::parse(url).ok()?;
    parsed.host_str().map(str::to_string)
}

// ---------------------------------------------------------------------------
// chrono
// ---------------------------------------------------------------------------

/// A point in time: whole seconds since the Unix epoch, and nanoseconds within the
/// second, which pass a full second inside a leap second.
#[derive(Clone, Copy, Debug, PartialEq, Eq, Structural)]
pub struct Instant {
    pub seconds: i64,
    pub nanos: u32,
}

/// Whether `a` is at or before `b`.
pub open spec fn not_after(a: Instant, b: Instant) -> bool {
    a.seconds < b.seconds || (a.seconds == b.seconds && a.nanos <= b.nanos)
}

/// What a local wall clock shows.
#[derive(Clone, Copy, Debug, PartialEq, Eq, Structural)]
pub struct WallClock {
    pub hour: u32,
    pub minute: u32,
    pub second: u32,
    pub millis: u32,
}

/// The ranges of a wall clock's hands; in a leap second the milliseconds pass 999.
pub open spec fn on_dial(c: WallClock) -> bool {
    c.hour < 24 && c.minute < 60 && c.second < 60 && c.millis < 2000
}

/// The point in time that an RFC 3339 text names, where it is one.
pub uninterp spec fn rfc3339_instant(raw: Seq<char>) -> Option<Instant>;

/// `chrono::DateTime::parse_from_rfc3339`, and the result's `timestamp` and
/// `timestamp_subsec_nanos`. The grammar and the calendar are left to the name.
#[verifier::external_body]
pub(crate) fn parse_rfc3339(raw: &str) -> (r: Option<Instant>)
    ensures
        r == rfc3339_instant(raw@),
{
    let t = chrono::DateTime::parse_from_rfc3339(raw).ok()?;
    Some(Instant { seconds: t.timestamp(), nanos: t.timestamp_subsec_nanos() })
}

/// `chrono::Utc::now`. Nothing is promised of the time.
#[verifier::external_body]
pub(crate) fn utc_now() -> (r: Instant) {
    let t = chrono::Utc::now();
    Instant { seconds: t.timestamp(), nanos: t.timestamp_subsec_nanos() }
}

/// `chrono::Local::now`, read off as a wall clock. Nothing is promised of the time but
/// the ranges of the hands.
#[verifier::external_body]
pub(crate) fn local_now() -> (r: WallClock)
    ensures
        on_dial(r),
{
    let t = chrono::Local::now();
    WallClock { hour: t.hour(), minute: t.minute(), second: t.second(), millis: t.timestamp_subsec_millis() }
}

/// `chrono::DateTime::with_timezone` to `chrono::Local`, read off as a wall clock, of the
/// time that an RFC 3339 text names. There is a result exactly where the text names a
/// time; a time zone moves whole seconds, so the milliseconds are the text's own. The
/// machine's time zone decides the rest.
#[verifier::external_body]
pub(crate) fn local_time_of(raw: &str) -> (r: Option<WallClock>)
    ensures
        match r {
            Some(c) => on_dial(c) && rfc3339_instant(raw@) is Some && c.millis
                == rfc3339_instant(raw@)->0.nanos / 1_000_000,
            None => rfc3339_instant(raw@) is None,
        },
{
    let t = chrono::DateTime::parse_from_rfc3339(raw).ok()?.with_timezone(&chrono::Local);
    Some(WallClock { hour: t.hour(), minute: t.minute(), second: t.second(), millis: t.timestamp_subsec_millis() })
}

// ---------------------------------------------------------------------------
// uuid
// ---------------------------------------------------------------------------

/// Whether a text is a random UUID in its hyphenated form: lower-case hexadecimal digits in
/// groups of 8, 4, 4, 4 and 12, with the version and the variant in their places.
pub open spec fn random_uuid(id: Seq<char>) -> bool {
    &&& id.len() == 36
    &&& id[14] == '4'
    &&& id[19] == '8' || id[19] == '9' || id[19] == 'a' || id[19] == 'b'
    &&& forall|i: int|
        0 <= i < 36 ==> {
            let c = #[trigger] id[i];
            if i == 8 || i == 13 || i == 18 || i == 23 {
                c == '-'
            } else {
                ('0' <= c && c <= '9') || ('a' <= c && c <= 'f')
            }
        }
}

/// `uuid::Uuid::new_v4` in its hyphenated form. Which one it is is left to chance.
#[verifier::external_body]
pub(crate) fn random_id() -> (r: String)
    ensures
        random_uuid(r@),
{
    uuid::Uuid::new_v4().to_string()
}

// ---------------------------------------------------------------------------
// serde_json and jsonc-parser
// ---------------------------------------------------------------------------

/// A text as a JSON string literal.
pub uninterp spec fn json_literal(s: Seq<char>) -> Seq<char>;

/// Whether a character stands for itself inside a JSON string literal.
pub open spec fn plain_in_json(c: char) -> bool {
    c >= ' ' && c != '"' && c != '\\'
}

/// `serde_json::to_string` of a text, which cannot fail. Where every character stands for
/// itself the literal is the text in quotes; how the others are escaped is left to the name.
#[verifier::external_body]
pub(crate) fn json_string(s: &str) -> (r: String)
    ensures
        r@ == json_literal(s@),
        (forall|i: int| 0 <= i < s@.len() ==> plain_in_json(#[trigger] s@[i])) ==> r@ == seq!['"']
            + s@ + seq!['"'],
{
    serde_json::to_string(s).unwrap()
}

/// `serde_json::Value`, carried from the parser to [`tree_of`].
#[verifier::external_type_specification]
#[verifier::external_body]
pub struct ExValue(serde_json::Value);

/// A JSON value. The members of an object stand in the order of their names, each name
/// once; a number is kept as its text.
#[derive(Debug)]
pub enum Json {
    Null,
    Bool(bool),
    Number(String),
    Text(String),
    Array(Vec<Json>),
    Object(Vec<(String, Json)>),
}

/// Whether `json` has at most `levels` arrays and objects inside each other.
pub open spec fn no_deeper(json: Json, levels: nat) -> bool
    decreases levels,
{
    match json {
        Json::Array(a) => levels > 0 && forall|i: int|
            0 <= i < a@.len() ==> no_deeper(#[trigger] a@[i], (levels - 1) as nat),
        Json::Object(o) => levels > 0 && forall|i: int|
            0 <= i < o@.len() ==> no_deeper((#[trigger] o@[i]).1, (levels - 1) as nat),
        _ => true,
    }
}

/// How deep the arrays and objects of a JSONC text may stand inside each other. The parser
/// calls itself for each level, and a stack of a few hundred kilobytes has room
/// for this many calls.
pub const MAX_NESTING: usize = 256;

/// The value that a JSONC text holds: none in an empty text, and the parser's message
/// where it is not JSONC.
pub uninterp spec fn jsonc_value(text: Seq<char>) -> Result<Option<serde_json::Value>, Seq<char>>;

/// `jsonc_parser::parse_to_serde_value` with the default options. The grammar is left to
/// the name. An array or an object begins at a bracket outside strings and comments and ends
/// at the next one that is left to close it, so that the value is nested no deeper than the
/// text. The parser stops at the first thing that it does not expect, so that it never goes
/// deeper than that either.
#[verifier::external_body]
pub(crate) fn parse_jsonc(text: &str) -> (r: Result<Option<serde_json::Value>, String>)
    requires
        nesting(text@) <= MAX_NESTING,
    ensures
        match r {
            Ok(v) => jsonc_value(text@) == Ok::<Option<serde_json::Value>, Seq<char>>(v),
            Err(m) => jsonc_value(text@) == Err::<Option<serde_json::Value>, Seq<char>>(m@),
        },
        r matches Ok(Some(v)) ==> no_deeper(value_tree(v), nesting(text@)),
{
    jsonc_parser::parse_to_serde_value(text, &Default::default()).map_err(|e| e.to_string())
}

/// What a `serde_json::Value` holds.
pub uninterp spec fn value_tree(value: serde_json::Value) -> Json;

/// The contents of a `serde_json::Value`, variant for variant, with a number as its
/// `Display` writes it. What a value of the parser holds is left to the name. It calls
/// itself for each level of nesting.
#[verifier::external_body]
pub(crate) fn tree_of(value: serde_json::Value) -> (r: Json)
    requires
        no_deeper(value_tree(value), MAX_NESTING as nat),
    ensures
        r == value_tree(value),
{
    match value {
        serde_json::Value::Null => Json::Null,
        serde_json::Value::Bool(b) => Json::Bool(b),
        serde_json::Value::Number(n) => Json::Number(n.to_string()),
        serde_json::Value::String(s) => Json::Text(s),
        serde_json::Value::Array(a) => Json::Array(a.into_iter().map(tree_of).collect()),
        serde_json::Value::Object(o) => Json::Object(o.into_iter().map(|(k, v)| (k, tree_of(v))).collect()),
    }
}

// ---------------------------------------------------------------------------
// zip
// ---------------------------------------------------------------------------

/// An entry of a zip archive.
#[derive(Debug)]
pub struct ZipEntry {
    pub name: String,
    /// Where it belongs below the directory that the archive is unpacked into; none where
    /// it would lead out of it.
    pub place: Option<String>,
    pub is_dir: bool,
    /// What it holds, or why that cannot be read.
    pub content: Result<Vec<u8>, String>,
}

/// What the bytes of an archive alone say of an entry.
pub struct Stored {
    pub name: Seq<char>,
    pub is_dir: bool,
    pub content: Result<Seq<u8>, Seq<char>>,
}

/// What the bytes of the archive say of an entry; a text where the entry cannot be read.
pub open spec fn stored(entry: Result<ZipEntry, String>) -> Result<Stored, Seq<char>> {
    match entry {
        Ok(e) => Ok(
            Stored {
                name: e.name@,
                is_dir: e.is_dir,
                content: match e.content {
                    Ok(bytes) => Ok(bytes@),
                    Err(why) => Err(why@),
                },
            },
        ),
        Err(why) => Err(why@),
    }
}

/// Whether a name is cut into parts alike on every machine: a `/` separates everywhere, a
/// `\` or a `:` on some only.
pub open spec fn portable(name: Seq<char>) -> bool {
    !name.contains('\\') && !name.contains(':')
}

/// Whether a walk along the parts of a path, `depth` steps below where it began, never goes
/// above there.
pub open spec fn stays_below(parts: Seq<Seq<char>>, depth: nat) -> bool
    decreases parts.len(),
{
    if parts.len() == 0 {
        true
    } else if parts[0] == ""@ || parts[0] == "."@ {
        stays_below(parts.skip(1), depth)
    } else if parts[0] == ".."@ {
        depth > 0 && stays_below(parts.skip(1), (depth - 1) as nat)
    } else {
        stays_below(parts.skip(1), depth + 1)
    }
}

/// Whether a portable name leads to a place below the directory that it starts from.
pub open spec fn leads_below(name: Seq<char>) -> bool {
    !name.contains('\0') && !(name.len() > 0 && name[0] == '/') && stays_below(
        split(name, '/'),
        0,
    )
}

/// Whether an entry belongs at its own name or nowhere; which of the two is open only for a
/// name that is not portable.
pub open spec fn well_placed(entry: Result<ZipEntry, String>) -> bool {
    entry matches Ok(e) ==> match e.place {
        Some(place) => place@ == e.name@ && (portable(e.name@) ==> leads_below(e.name@)),
        None => portable(e.name@) ==> !leads_below(e.name@),
    }
}

/// The entries of a zip archive, in its order; a text where the bytes are no archive.
pub uninterp spec fn zip_contents(bytes: Seq<u8>) -> Result<
    Seq<Result<Stored, Seq<char>>>,
    Seq<char>,
>;

/// `zip::ZipArchive` over bytes in memory: `new`, and for each index below `len`, in turn,
/// `by_index` with what the entry says of itself and its contents read to their end. What
/// there is, what it holds, and which of it cannot be read depends on the bytes alone, as
/// far as memory holds it; the format is left to the name. `enclosed_name` gives the name
/// itself, as a path, unless it holds a NUL, is absolute or leads above the directory. Where
/// a name with a `\` or a `:` leads is not said: that goes by the machine's rules for paths.
#[verifier::external_body]
pub(crate) fn read_zip(bytes: &[u8]) -> (r: Result<Vec<Result<ZipEntry, String>>, String>)
    ensures
        match r {
            Ok(v) => zip_contents(bytes@) == Ok::<Seq<Result<Stored, Seq<char>>>, Seq<char>>(
                v@.map_values(|e: Result<ZipEntry, String>| stored(e)),
            ),
            Err(m) => zip_contents(bytes@) == Err::<Seq<Result<Stored, Seq<char>>>, Seq<char>>(m@),
        },
        r matches Ok(v) ==> forall|i: int| 0 <= i < v@.len() ==> well_placed(#[trigger] v@[i]),
{
    let mut zip = zip::ZipArchive::new(std::io::Cursor::new(bytes)).map_err(|e| e.to_string())?;
    let mut entries = Vec::new();
    for i in 0..zip.len() {
        let mut content = Vec::new();
        entries.push(zip.by_index(i).map_err(|e| e.to_string()).map(|mut entry| ZipEntry {
            name: entry.name().to_string(),
            place: entry.enclosed_name().map(|path| path.to_string_lossy().into_owned()),
            is_dir: entry.is_dir(),
            content: entry.read_to_end(&mut content).map(|_| content).map_err(|e| e.to_string()),
        }));
    }
    Ok(entries)
}

} // verus!
