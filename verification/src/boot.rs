//! The pieces of the composer's boot read that are decided rather than read: the draft entry the
//! composer opens with, and how a stored record is handed over.

use vstd::prelude::*;

use crate::chat_host::{is_v4_text, next_draft_version};
use crate::effects::Json;
use crate::transfers::{json_parse_of, json_text_parses, parse_json};

verus! {

broadcast use vstd::string::group_string_axioms;

/// A stored draft, as far as the boot entry reads it.
pub struct StoredDraft {
    pub text: String,
    pub updated_at: Option<Json>,
    pub submitted: bool,
    pub parked: bool,
    /// The draft's identity and revision, when it has one.
    pub version: Option<(String, Json)>,
}

/// Whether `v` is a fresh draft identity: `{draftId: <a v4 id>, revision: 1}`.
pub open spec fn fresh_version(v: Json) -> bool {
    v matches Json::Object(members) && members@.len() == 2 && members@[0].0@ == "draftId"@
        && members@[1].0@ == "revision"@ && members@[1].1 == Json::UInt(1) && (
    members@[0].1 matches Json::Text(id) && is_v4_text(id@))
}

/// Whether `v` is the stored identity `{draftId, revision}`.
pub open spec fn stored_version(v: Json, draft_id: Seq<char>, revision: Json) -> bool {
    v matches Json::Object(members) && members@.len() == 2 && members@[0].0@ == "draftId"@
        && members@[1].0@ == "revision"@ && members@[1].1 == revision && (
    members@[0].1 matches Json::Text(id) && id@ == draft_id)
}

/// The identity an entry opens with: the stored one for a draft that is neither submitted nor
/// parked and has one, a fresh one otherwise.
pub open spec fn version_of_entry(stored: Option<StoredDraft>, v: Json) -> bool {
    match stored {
        Some(r) => match r.version {
            Some((draft_id, revision)) if !r.submitted && !r.parked => stored_version(
                v,
                draft_id@,
                revision,
            ),
            _ => fresh_version(v),
        },
        None => fresh_version(v),
    }
}

/// The keys of an object's members, in order.
pub open spec fn member_keys(members: Seq<(String, Json)>) -> Seq<Seq<char>> {
    members.map_values(|m: (String, Json)| m.0@)
}

/// The entry the composer opens with: `{...stored, version}`. A stored identity is reused only
/// for a draft that is neither submitted nor parked; otherwise a fresh one is made. With nothing
/// stored the entry holds `version` alone.
pub fn entry_with_version(stored: Option<StoredDraft>) -> (entry: Json)
    ensures
        entry matches Json::Object(members) && members@.len() > 0 && members@.last().0@
            == "version"@ && ({
            let v = members@.last().1;
            version_of_entry(stored, v)
        }) && match stored {
            None => members@.len() == 1,
            Some(r) => {
                &&& member_keys(members@) == if r.updated_at is Some {
                    seq!["text"@, "updatedAt"@, "submitted"@, "parked"@, "version"@]
                } else {
                    seq!["text"@, "submitted"@, "parked"@, "version"@]
                }
                &&& members@[0].1 matches Json::Text(t) && t@ == r.text@
                &&& r.updated_at matches Some(u) ==> members@[1].1 == u
                &&& members@[members@.len() - 3].1 == Json::Bool(r.submitted)
                &&& members@[members@.len() - 2].1 == Json::Bool(r.parked)
            },
        },
{
    match stored {
        None => {
            let version = next_draft_version();
            let mut members: Vec<(String, Json)> = Vec::new();
            members.push((String::from_str("version"), version));
            Json::Object(members)
        },
        Some(record) => {
            let StoredDraft { text, updated_at, submitted, parked, version } = record;
            let version = match version {
                Some((draft_id, revision)) if !submitted && !parked => {
                    let mut members: Vec<(String, Json)> = Vec::new();
                    members.push((String::from_str("draftId"), Json::Text(draft_id)));
                    members.push((String::from_str("revision"), revision));
                    Json::Object(members)
                },
                _ => next_draft_version(),
            };
            let mut members: Vec<(String, Json)> = Vec::new();
            members.push((String::from_str("text"), Json::Text(text)));
            match updated_at {
                Some(u) => members.push((String::from_str("updatedAt"), u)),
                None => {},
            }
            members.push((String::from_str("submitted"), Json::Bool(submitted)));
            members.push((String::from_str("parked"), Json::Bool(parked)));
            members.push((String::from_str("version"), version));
            proof {
                assert(member_keys(members@) =~= if updated_at is Some {
                    seq!["text"@, "updatedAt"@, "submitted"@, "parked"@, "version"@]
                } else {
                    seq!["text"@, "submitted"@, "parked"@, "version"@]
                });
            }
            Json::Object(members)
        },
    }
}

/// `{ "<key>": <value> }` for a stored record that reads as JSON, an empty object otherwise.
pub fn single(key: &str, raw: Option<String>) -> (object: Json)
    ensures
        object matches Json::Object(members) && match raw {
            Some(r) if json_text_parses(r@) => members@.len() == 1 && members@[0].0@ == key@
                && members@[0].1 == Json::Other(json_parse_of(r@)->0),
            _ => members@.len() == 0,
        },
{
    let mut members: Vec<(String, Json)> = Vec::new();
    match raw {
        Some(r) => match parse_json(r.as_str()) {
            Some(value) => members.push((String::from_str(key), Json::Other(value))),
            None => {},
        },
        None => {},
    }
    Json::Object(members)
}

/// A stored record as JSON, or `null` when it is missing or does not read as JSON.
pub fn parse(raw: Option<String>) -> (value: Json)
    ensures
        match raw {
            Some(r) if json_text_parses(r@) => value == Json::Other(json_parse_of(r@)->0),
            _ => value == Json::Null,
        },
{
    match raw {
        Some(r) => match parse_json(r.as_str()) {
            Some(value) => Json::Other(value),
            None => Json::Null,
        },
        None => Json::Null,
    }
}

} // verus!
