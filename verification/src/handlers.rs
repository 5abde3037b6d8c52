use vstd::prelude::*;
use vstd::string::StringExecFns;

use crate::json::{json_of, movie_to_json};
use crate::parse::{parse_movie, spec_parse_movie};
use crate::store::DataBase;

verus! {

pub const STATUS_OK: u16 = 200;

pub const STATUS_CREATED: u16 = 201;

pub const STATUS_BAD_REQUEST: u16 = 400;

pub const STATUS_NOT_FOUND: u16 = 404;

/// A reply to one request: an HTTP status code and a text body.
pub struct Response {
    pub status: u16,
    pub body: String,
}

/// Serves a retrieval request: on a hit, the stored record as JSON; on a
/// miss, a plain-text body.  No side effects.
pub fn get_movie(db: &DataBase, id: &String) -> (r: Response)
    ensures
        db@.contains_key(id@) ==> r.status == STATUS_OK && r.body@ == json_of(db@[id@]),
        !db@.contains_key(id@) ==> r.status == STATUS_NOT_FOUND && r.body@ == "Movie not found"@,
{
    match db.get(id) {
        Some(movie) => Response { status: STATUS_OK, body: movie_to_json(movie) },
        None => Response { status: STATUS_NOT_FOUND, body: String::from_str("Movie not found") },
    }
}

/// Serves an insertion request: a body that denotes a record is stored under
/// its id and echoed back as JSON; any other body is rejected and the store
/// is left untouched.
pub fn post_movie(db: &mut DataBase, body: &str) -> (r: Response)
    ensures
        match spec_parse_movie(body@) {
            Some(m) => r.status == STATUS_CREATED && r.body@ == json_of(m) && final(db)@ == old(
                db,
            )@.insert(m.id, m),
            None => r.status == STATUS_BAD_REQUEST && r.body@ == "Invalid movie"@ && final(db)@
                == old(db)@,
        },
{
    match parse_movie(body) {
        Some(movie) => {
            let stored = db.put(movie);
            Response { status: STATUS_CREATED, body: movie_to_json(&stored) }
        },
        None => Response { status: STATUS_BAD_REQUEST, body: String::from_str("Invalid movie") },
    }
}

} // verus!
