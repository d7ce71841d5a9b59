//! The JSON bodies of requests. The members of an object stand in the order of their names.

use vstd::prelude::*;
use vstd::string::*;

use crate::env_vars::EnvVars;
use crate::lines::{join, joined};
use crate::numbers::{signed_decimal, signed_text};
use crate::outside::{json_literal, json_string};
use crate::text::{opt_str, texts};

verus! {

/// A text, or `null`.
pub open spec fn json_or_null(s: Option<Seq<char>>) -> Seq<char> {
    match s {
        Some(s) => json_literal(s),
        None => "null"@,
    }
}

fn json_or_null_text(s: Option<&str>) -> (r: String)
    ensures
        r@ == json_or_null(opt_str(s)),
{
    match s {
        Some(s) => json_string(s),
        None => "null".to_string(),
    }
}

/// A query against a database.
pub fn query_body(query: &str) -> (r: String)
    ensures
        r@ == "{\"query\":"@ + json_literal(query@) + "}"@,
{
    "{\"query\":".to_string().concat(json_string(query).as_str()).concat("}")
}

/// A migration to a version.
pub fn migration_body(submission_id: &str, target: i64, message: Option<&str>) -> (r: String)
    ensures
        r@ == "{\"deploy_message\":"@ + json_or_null(opt_str(message)) + ",\"submission_id\":"@
            + json_literal(submission_id@) + ",\"target_migration_version\":"@ + signed_decimal(
            target as int,
        ) + "}"@,
{
    "{\"deploy_message\":".to_string().concat(json_or_null_text(message).as_str()).concat(
        ",\"submission_id\":",
    ).concat(json_string(submission_id).as_str()).concat(",\"target_migration_version\":").concat(
        signed_text(target).as_str(),
    ).concat("}")
}

/// One member of an object, by a name and a text.
pub open spec fn member(pair: (Seq<char>, Seq<char>)) -> Seq<char> {
    json_literal(pair.0) + ":"@ + json_literal(pair.1)
}

/// The members of an object of texts.
pub open spec fn members(pairs: Seq<(Seq<char>, Seq<char>)>) -> Seq<Seq<char>> {
    pairs.map_values(|p: (Seq<char>, Seq<char>)| member(p))
}

/// Environment variables to set.
pub fn env_body(vars: &EnvVars) -> (r: String)
    ensures
        r@ == "{\"vars\":{"@ + join(members(vars@), ","@) + "}}"@,
{
    let mut list: Vec<String> = Vec::new();
    let mut i: usize = 0;
    let ghost all = members(vars@);
    while i < vars.len()
        invariant
            i <= vars@.len(),
            all == members(vars@),
            texts(list@) == all.take(i as int),
        decreases vars@.len() - i,
    {
        let ghost had = texts(list@);
        let (name, value) = vars.get(i);
        let text = json_string(name).concat(":").concat(json_string(value).as_str());
        list.push(text);
        proof {
            assert(texts(list@) =~= had.push(text@));
            assert(all[i as int] == member(vars@[i as int]));
            assert(all.take(i + 1) =~= all.take(i as int).push(all[i as int]));
        }
        i = i + 1;
    }
    proof {
        assert(all.take(i as int) =~= all);
    }
    "{\"vars\":{".to_string().concat(joined(&list, ",").as_str()).concat("}}")
}

/// A new title for a project.
pub fn title_body(title: &str) -> (r: String)
    ensures
        r@ == "{\"title\":"@ + json_literal(title@) + "}"@,
{
    "{\"title\":".to_string().concat(json_string(title).as_str()).concat("}")
}

/// A new project.
pub fn create_body(slug: &str, title: &str) -> (r: String)
    ensures
        r@ == "{\"slug\":"@ + json_literal(slug@) + ",\"title\":"@ + json_literal(title@) + "}"@,
{
    "{\"slug\":".to_string().concat(json_string(slug).as_str()).concat(",\"title\":").concat(
        json_string(title).as_str(),
    ).concat("}")
}

/// The start of a login.
pub fn login_start_body(upgrade_session_token: Option<&str>) -> (r: String)
    ensures
        r@ == "{\"upgrade_session_token\":"@ + json_or_null(opt_str(upgrade_session_token)) + "}"@,
{
    "{\"upgrade_session_token\":".to_string().concat(
        json_or_null_text(upgrade_session_token).as_str(),
    ).concat("}")
}

/// A question whether a login was approved.
pub fn login_poll_body(login_id: &str, login_secret: &str) -> (r: String)
    ensures
        r@ == "{\"login_id\":"@ + json_literal(login_id@) + ",\"login_secret\":"@ + json_literal(
            login_secret@,
        ) + "}"@,
{
    "{\"login_id\":".to_string().concat(json_string(login_id).as_str()).concat(
        ",\"login_secret\":",
    ).concat(json_string(login_secret).as_str()).concat("}")
}

/// A request for a link that opens `redirect` in a browser, signed in.
pub fn handoff_body(session_token: &str, redirect: &str) -> (r: String)
    ensures
        r@ == "{\"redirect\":"@ + json_literal(redirect@) + ",\"session_token\":"@ + json_literal(
            session_token@,
        ) + "}"@,
{
    "{\"redirect\":".to_string().concat(json_string(redirect).as_str()).concat(
        ",\"session_token\":",
    ).concat(json_string(session_token).as_str()).concat("}")
}

/// The end of a session.
pub fn logout_body(session_token: &str) -> (r: String)
    ensures
        r@ == "{\"session_token\":"@ + json_literal(session_token@) + "}"@,
{
    "{\"session_token\":".to_string().concat(json_string(session_token).as_str()).concat("}")
}

/// A request for an access token of the platform.
pub fn token_body(session_token: &str) -> (r: String)
    ensures
        r@ == "{\"audience\":\"platform-api\",\"session_token\":"@ + json_literal(session_token@)
            + "}"@,
{
    "{\"audience\":\"platform-api\",\"session_token\":".to_string().concat(
        json_string(session_token).as_str(),
    ).concat("}")
}

/// Variables are sent one by one, in their order, each under its own name, and a missing text
/// is sent as `null`.
pub proof fn law_members_keep_names_and_values(
    above: Seq<(Seq<char>, Seq<char>)>,
    below: Seq<(Seq<char>, Seq<char>)>,
    name: Seq<char>,
    value: Seq<char>,
)
    ensures
        members(above + below) == members(above) + members(below),
        members(seq![(name, value)]) == seq![json_literal(name) + ":"@ + json_literal(value)],
        members(Seq::empty()) == Seq::<Seq<char>>::empty(),
        json_or_null(Some(value)) == json_literal(value),
        json_or_null(None) == "null"@,
{
    assert(members(above + below) =~= members(above) + members(below));
    assert(members(seq![(name, value)]) =~= seq![json_literal(name) + ":"@ + json_literal(value)]);
    assert(members(Seq::empty()) =~= Seq::<Seq<char>>::empty());
}

} // verus!
