//! The user entity, its JSON text form, and the body decoder.
//!
//! Two shapes keep the storage invariant by construction: `NewUser` is what a
//! create or update request carries (no id — the database alone assigns one),
//! and `User` is a persisted row, whose id is always present.

use vstd::prelude::*;
use vstd::string::*;
use crate::codec::after_blank;
use crate::codec::request_body;

verus! {

/// The entity as a request supplies it: no id.
pub struct NewUser {
    pub name: String,
    pub email: String,
}

/// A persisted row: the database has assigned the id.
pub struct User {
    pub id: i32,
    pub name: String,
    pub email: String,
}

#[verifier::ext_equal]
pub struct UserV {
    pub id: int,
    pub name: Seq<char>,
    pub email: Seq<char>,
}

impl View for User {
    type V = UserV;

    open spec fn view(&self) -> UserV {
        UserV { id: self.id as int, name: self.name@, email: self.email@ }
    }
}

pub open spec fn views_of(rows: Seq<User>) -> Seq<UserV> {
    rows.map_values(|u: User| u@)
}

/// What the entity text form yields: the `name` and `email` fields of a JSON
/// object, or nothing when the text reads as no such object. A function of
/// the text alone.
pub uninterp spec fn user_fields_of(body: Seq<char>) -> Option<(Seq<char>, Seq<char>)>;

/// The JSON text of a persisted row, keys id, name, email in that order.
/// A function of the three values alone.
pub uninterp spec fn json_of_user(id: int, name: Seq<char>, email: Seq<char>) -> Seq<char>;

/// Relies on serde_json::from_str and Value::get: whether the body text
/// reads as a JSON object whose `name` and `email` are strings, and what
/// they hold, depend on the text alone; an `id` field is ignored.
#[verifier::external_body]
fn parse_user_fields(body: &str) -> (r: Option<(String, String)>)
    ensures
        match r {
            Some(p) => user_fields_of(body@) == Some((p.0@, p.1@)),
            None => user_fields_of(body@) is None,
        },
{
    let v: serde_json::Value = match serde_json::from_str(body) {
        Ok(v) => v,
        Err(_) => return None,
    };
    let name = match v.get("name") {
        Some(serde_json::Value::String(s)) => s.clone(),
        _ => return None,
    };
    let email = match v.get("email") {
        Some(serde_json::Value::String(s)) => s.clone(),
        _ => return None,
    };
    Some((name, email))
}

/// Relies on serde_json::to_string on a Value object (insertion order kept):
/// the row's JSON text depends on id, name and email alone.
#[verifier::external_body]
fn user_json_parts(id: i32, name: &str, email: &str) -> (r: String)
    ensures
        r@ == json_of_user(id as int, name@, email@),
{
    let mut m = serde_json::Map::new();
    m.insert("id".to_owned(), serde_json::Value::from(id));
    m.insert("name".to_owned(), serde_json::Value::from(name));
    m.insert("email".to_owned(), serde_json::Value::from(email));
    match serde_json::to_string(&serde_json::Value::Object(m)) {
        Ok(s) => s,
        Err(_) => String::new(),
    }
}

/// The JSON text of one persisted row.
pub fn user_json(u: &User) -> (r: String)
    ensures
        r@ == json_of_user(u@.id, u@.name, u@.email),
{
    user_json_parts(u.id, u.name.as_str(), u.email.as_str())
}

/// The rows' JSON texts joined with commas, no brackets yet.
pub open spec fn joined_users(rows: Seq<UserV>) -> Seq<char>
    decreases rows.len(),
{
    if rows.len() == 0 {
        Seq::empty()
    } else if rows.len() == 1 {
        json_of_user(rows[0].id, rows[0].name, rows[0].email)
    } else {
        joined_users(rows.drop_last()) + ","@ + json_of_user(
            rows.last().id,
            rows.last().name,
            rows.last().email,
        )
    }
}

/// The JSON text of a sequence of rows: the rows in order, inside brackets.
pub open spec fn users_json_of(rows: Seq<UserV>) -> Seq<char> {
    "["@ + joined_users(rows) + "]"@
}

/// Serializes rows as an ordered JSON array.
pub fn users_json(rows: &Vec<User>) -> (out: String)
    ensures
        out@ == users_json_of(views_of(rows@)),
{
    let mut out = String::new();
    out.append("[");
    proof {
        assert(out@ =~= "["@ + joined_users(views_of(rows@).take(0)));
    }
    let mut i: usize = 0;
    while i < rows.len()
        invariant
            0 <= i <= rows@.len(),
            out@ == "["@ + joined_users(views_of(rows@).take(i as int)),
        decreases rows@.len() - i,
    {
        if i > 0 {
            out.append(",");
        }
        let piece = user_json(&rows[i]);
        out.append(piece.as_str());
        proof {
            let rv = views_of(rows@);
            assert(rv.take(i + 1).drop_last() =~= rv.take(i as int));
            assert(rv.take(i + 1).last() == rv[i as int]);
            assert(rv[i as int] == rows@[i as int]@);
            if i == 0 {
                assert(out@ =~= "["@ + joined_users(rv.take(1)));
            } else {
                assert(out@ =~= "["@ + joined_users(rv.take(i + 1)));
            }
        }
        i += 1;
    }
    out.append("]");
    proof {
        assert(views_of(rows@).take(rows@.len() as int) =~= views_of(rows@));
    }
    out
}

/// A body that does not read as the entity.
#[derive(Clone, Copy, PartialEq, Eq, Structural, Debug)]
pub struct DecodeError;

/// What a whole request decodes to: the text after the first blank line,
/// read as the entity, when both exist.
pub open spec fn decoded_fields_of(req: Seq<char>) -> Option<(Seq<char>, Seq<char>)> {
    match after_blank(req) {
        Some(body) => user_fields_of(body),
        None => None,
    }
}

/// Decodes a request's body into the entity, ignoring any id field: the
/// body is what follows the first blank line.
pub fn decode_body(request: &str) -> (r: Result<NewUser, DecodeError>)
    ensures
        match r {
            Ok(u) => decoded_fields_of(request@) == Some((u.name@, u.email@)),
            Err(_) => decoded_fields_of(request@) is None,
        },
{
    match request_body(request) {
        Some(body) => match parse_user_fields(body.as_str()) {
            Some(p) => Ok(NewUser { name: p.0, email: p.1 }),
            None => Err(DecodeError),
        },
        None => Err(DecodeError),
    }
}

} // verus!
