//! The `records` table of the client-storage database, where a store on the records backend keeps
//! its rows: the four bounds a write is held to, and what one write does.
//!
//! This door REFUSES a write that breaks a bound rather than making room by deleting other rows:
//! a door that quietly deleted another feature's data would be a loss nobody could trace back to
//! it. The bounds are checked in the client-storage service's order, in its UTF-16 accounting.

use vstd::prelude::*;

use crate::effects::Json;
use crate::json_fields::{as_i64, as_text, get, get_of, i64_of, opt_deref, owned, text_of};
use crate::text::chars_of;

verus! {

/// The shared budget of every store on the records backend.
pub const MAX_BACKEND_BYTES: i64 = 134217728;

/// One store's row in the catalog, as far as a write needs it.
#[derive(Clone, Copy, Debug, PartialEq, Eq)]
pub struct RecordStore {
    /// The catalog id, which is also the row's `store` column.
    pub id: &'static str,
    /// The catalog version, stored on each row as `schemaVersion`.
    pub version: i64,
    pub max_entry_bytes: i64,
    pub max_bytes: i64,
    pub max_entries: i64,
    /// How long a row is kept, where the catalog sets an age.
    pub max_age_ms: Option<i64>,
}

/// The sizes the four bounds are measured against, read inside the write's transaction.
#[derive(Clone, Copy, Debug, PartialEq, Eq)]
pub struct Usage {
    /// Bytes of this store, not counting the key being written.
    pub store_bytes: i64,
    /// Entries of this store, not counting the key being written.
    pub store_entries: i64,
    /// Bytes of every row on the backend, the key being written included.
    pub backend_bytes: i64,
    /// What the key being written holds today.
    pub previous_bytes: i64,
    /// The highest revision any row carries.
    pub revision_floor: i64,
}

/// The bound a value of `next_bytes` would break, in the order they are checked.
pub open spec fn refusal_of(usage: Usage, store: RecordStore, next_bytes: int) -> Option<
    Seq<char>,
> {
    if next_bytes > store.max_entry_bytes {
        Some("entry"@)
    } else if usage.store_bytes + next_bytes > store.max_bytes {
        Some("store"@)
    } else if usage.store_entries + 1 > store.max_entries {
        Some("entries"@)
    } else if usage.backend_bytes - usage.previous_bytes + next_bytes > MAX_BACKEND_BYTES {
        Some("backend"@)
    } else {
        None
    }
}

/// The sizes stay where a table of real rows can put them.
pub open spec fn usage_in_range(usage: Usage) -> bool {
    0 <= usage.store_bytes <= i64::MAX / 4 && 0 <= usage.store_entries < i64::MAX && 0
        <= usage.previous_bytes <= usage.backend_bytes <= i64::MAX / 4
}

impl Usage {
    /// The bound this value would break, or `None` when all four admit it.
    pub fn refuses(&self, store: RecordStore, next_bytes: i64) -> (bound: Option<&'static str>)
        requires
            usage_in_range(*self),
            0 <= next_bytes <= i64::MAX / 4,
        ensures
            match bound {
                Some(b) => refusal_of(*self, store, next_bytes as int) == Some(b@),
                None => refusal_of(*self, store, next_bytes as int) is None,
            },
    {
        if next_bytes > store.max_entry_bytes {
            return Some("entry");
        }
        if self.store_bytes + next_bytes > store.max_bytes {
            return Some("store");
        }
        if self.store_entries + 1 > store.max_entries {
            return Some("entries");
        }
        if self.backend_bytes - self.previous_bytes + next_bytes > MAX_BACKEND_BYTES {
            Some("backend")
        } else {
            None
        }
    }
}

/// What the table holds under the key being written: its payload and schema version, where the
/// row parses and carries them.
#[derive(Clone, Debug, PartialEq, Eq)]
pub struct HeldRow {
    pub raw: Option<String>,
    pub schema_version: Option<i64>,
}

/// What one write does.
#[derive(Clone, Debug, PartialEq, Eq)]
pub enum RecordWrite {
    /// The row is stored at this revision, with this many bytes.
    Stored { revision: i64, bytes: i64 },
    /// The row already held exactly this payload at this schema version; nothing is written.
    Unchanged,
    /// A bound refused it, named.
    Refused(&'static str),
}

/// Whether the held row already is this payload at this version.
pub open spec fn unchanged_of(held: Option<HeldRow>, store: RecordStore, raw: Seq<char>) -> bool {
    match held {
        Some(row) => opt_view(row.raw) == Some(raw) && row.schema_version == Some(store.version),
        None => false,
    }
}

/// The view of an optional string.
pub open spec fn opt_view(s: Option<String>) -> Option<Seq<char>> {
    match s {
        Some(t) => Some(t@),
        None => None,
    }
}

/// The revision a stored row takes: one past both the rows' highest and the counter's.
pub open spec fn next_revision_of(revision_floor: int, metadata_revision: int) -> int {
    if revision_floor >= metadata_revision {
        revision_floor + 1
    } else {
        metadata_revision + 1
    }
}

/// Decides one write of `raw` (`next_bytes` in the UTF-16 accounting) over what the table holds.
pub fn write_record(
    store: RecordStore,
    raw: &str,
    next_bytes: i64,
    held: Option<HeldRow>,
    usage: Usage,
    metadata_revision: i64,
) -> (outcome: RecordWrite)
    requires
        usage_in_range(usage),
        0 <= next_bytes <= i64::MAX / 4,
        usage.revision_floor < i64::MAX,
        metadata_revision < i64::MAX,
    ensures
        unchanged_of(held, store, raw@) ==> outcome == RecordWrite::Unchanged,
        !unchanged_of(held, store, raw@) ==> match refusal_of(usage, store, next_bytes as int) {
            Some(b) => outcome matches RecordWrite::Refused(r) && r@ == b,
            None => outcome == RecordWrite::Stored {
                revision: next_revision_of(
                    usage.revision_floor as int,
                    metadata_revision as int,
                ) as i64,
                bytes: next_bytes,
            },
        },
{
    let unchanged = match &held {
        Some(row) => {
            let same_raw = match &row.raw {
                Some(r) => crate::text::same_text(r.as_str(), raw),
                None => false,
            };
            let same_version = match row.schema_version {
                Some(v) => v == store.version,
                None => false,
            };
            same_raw && same_version
        },
        None => false,
    };
    if unchanged {
        return RecordWrite::Unchanged;
    }
    if let Some(bound) = usage.refuses(store, next_bytes) {
        return RecordWrite::Refused(bound);
    }
    let floor = if usage.revision_floor >= metadata_revision {
        usage.revision_floor
    } else {
        metadata_revision
    };
    RecordWrite::Stored { revision: floor + 1, bytes: next_bytes }
}

/// A value the door admits keeps all four bounds once it is stored: its own size, its store's
/// bytes and entries, and the whole backend's bytes.
pub proof fn law_admitted_values_keep_every_bound(usage: Usage, store: RecordStore, next_bytes: int)
    requires
        refusal_of(usage, store, next_bytes) is None,
    ensures
        next_bytes <= store.max_entry_bytes,
        usage.store_bytes + next_bytes <= store.max_bytes,
        usage.store_entries + 1 <= store.max_entries,
        usage.backend_bytes - usage.previous_bytes + next_bytes <= MAX_BACKEND_BYTES,
{
}

/// What a row of the records table holds, read from its JSON (`None` where the row is no JSON):
/// its `raw` text and its `schemaVersion` number, each where it has that type.
pub open spec fn held_row_is(row: Option<Json>, held: Option<HeldRow>) -> bool {
    match row {
        None => held is None,
        Some(j) => held matches Some(h) && opt_view(h.raw) == text_of(get_of(j, "raw"@))
            && h.schema_version == i64_of(get_of(j, "schemaVersion"@)),
    }
}

/// Reads what a records row holds.
pub fn held_row(row: Option<&Json>) -> (held: Option<HeldRow>)
    ensures
        held_row_is(opt_deref(row), held),
{
    match row {
        Some(j) => Some(
            HeldRow {
                raw: owned(as_text(get(j, "raw"))),
                schema_version: as_i64(get(j, "schemaVersion")),
            },
        ),
        None => None,
    }
}

/// The payload of a records row: its `raw` text; a row that is no JSON or carries no `raw` text
/// reads as absent.
pub fn record_raw(row: Option<&Json>) -> (raw: Option<String>)
    ensures
        opt_view(raw) == match opt_deref(row) {
            Some(j) => text_of(get_of(j, "raw"@)),
            None => None,
        },
{
    match held_row(row) {
        Some(h) => h.raw,
        None => None,
    }
}

/// Whether `c` stands as itself in a URI component: an ASCII letter or digit, or one of
/// `-_.!~*'()`.
pub open spec fn uri_unreserved(c: char) -> bool {
    ||| 'A' <= c <= 'Z'
    ||| 'a' <= c <= 'z'
    ||| '0' <= c <= '9'
    ||| c == '-' || c == '_' || c == '.' || c == '!' || c == '~' || c == '*' || c == '\'' || c == '('
        || c == ')'
}

/// The upper-case hexadecimal digit `d`.
pub open spec fn hex_char(d: int) -> char {
    if d < 10 {
        crate::text::digit_char(d)
    } else if d == 10 {
        'A'
    } else if d == 11 {
        'B'
    } else if d == 12 {
        'C'
    } else if d == 13 {
        'D'
    } else if d == 14 {
        'E'
    } else {
        'F'
    }
}

/// Bytes written as `%XY` each.
pub open spec fn percent_bytes(bytes: Seq<u8>) -> Seq<char>
    decreases bytes.len(),
{
    if bytes.len() == 0 {
        Seq::empty()
    } else {
        percent_bytes(bytes.drop_last()) + seq![
            '%',
            hex_char(bytes.last() as int / 16),
            hex_char(bytes.last() as int % 16),
        ]
    }
}

/// A URI component as JavaScript's `encodeURIComponent` writes it: every character that does not
/// stand as itself becomes its UTF-8 bytes, `%XY` each.
pub open spec fn uri_component(s: Seq<char>) -> Seq<char>
    decreases s.len(),
{
    if s.len() == 0 {
        Seq::empty()
    } else {
        uri_component(s.drop_last()) + if uri_unreserved(s.last()) {
            seq![s.last()]
        } else {
            percent_bytes(vstd::utf8::encode_utf8(seq![s.last()]))
        }
    }
}

/// The upper-case hexadecimal digit `d`, as text.
fn hex_text(d: u8) -> (t: &'static str)
    requires
        d < 16,
    ensures
        t@ == seq![hex_char(d as int)],
{
    proof {
        reveal_strlit("0");
        reveal_strlit("1");
        reveal_strlit("2");
        reveal_strlit("3");
        reveal_strlit("4");
        reveal_strlit("5");
        reveal_strlit("6");
        reveal_strlit("7");
        reveal_strlit("8");
        reveal_strlit("9");
        reveal_strlit("A");
        reveal_strlit("B");
        reveal_strlit("C");
        reveal_strlit("D");
        reveal_strlit("E");
        reveal_strlit("F");
    }
    if d == 0 {
        "0"
    } else if d == 1 {
        "1"
    } else if d == 2 {
        "2"
    } else if d == 3 {
        "3"
    } else if d == 4 {
        "4"
    } else if d == 5 {
        "5"
    } else if d == 6 {
        "6"
    } else if d == 7 {
        "7"
    } else if d == 8 {
        "8"
    } else if d == 9 {
        "9"
    } else if d == 10 {
        "A"
    } else if d == 11 {
        "B"
    } else if d == 12 {
        "C"
    } else if d == 13 {
        "D"
    } else if d == 14 {
        "E"
    } else {
        "F"
    }
}

/// Whether `c` stands as itself in a URI component.
fn is_uri_unreserved(c: char) -> (keep: bool)
    ensures
        keep == uri_unreserved(c),
{
    ('A' <= c && c <= 'Z') || ('a' <= c && c <= 'z') || ('0' <= c && c <= '9') || c == '-' || c == '_'
        || c == '.' || c == '!' || c == '~' || c == '*' || c == '\'' || c == '(' || c == ')'
}

/// `encodeURIComponent(s)`.
pub fn encode_uri_component(s: &str) -> (encoded: String)
    ensures
        encoded@ == uri_component(s@),
{
    let chars = chars_of(s);
    let mut out = String::new();
    let mut i: usize = 0;
    proof {
        assert(s@.take(0) =~= Seq::<char>::empty());
    }
    while i < chars.len()
        invariant
            0 <= i <= chars@.len(),
            chars@ == s@,
            out@ == uri_component(s@.take(i as int)),
        decreases chars@.len() - i,
    {
        proof {
            assert(s@.take(i + 1).drop_last() =~= s@.take(i as int));
            assert(s@.take(i + 1).last() == chars@[i as int]);
        }
        let piece = s.substring_char(i, i + 1);
        proof {
            assert(piece@ =~= seq![chars@[i as int]]);
        }
        if is_uri_unreserved(chars[i]) {
            out.append(piece);
        } else {
            let bytes = piece.as_bytes();
            let ghost start = out@;
            let mut j: usize = 0;
            proof {
                assert(bytes@.take(0) =~= Seq::<u8>::empty());
            }
            while j < bytes.len()
                invariant
                    0 <= j <= bytes@.len(),
                    bytes@ == vstd::utf8::encode_utf8(seq![chars@[i as int]]),
                    out@ == start + percent_bytes(bytes@.take(j as int)),
                decreases bytes@.len() - j,
            {
                proof {
                    assert(bytes@.take(j + 1).drop_last() =~= bytes@.take(j as int));
                    assert(bytes@.take(j + 1).last() == bytes@[j as int]);
                }
                let b = bytes[j];
                out.append("%");
                out.append(hex_text(b / 16));
                out.append(hex_text(b % 16));
                proof {
                    reveal_strlit("%");
                    assert(out@ =~= start + percent_bytes(bytes@.take(j + 1)));
                }
                j = j + 1;
            }
            proof {
                assert(bytes@.take(bytes@.len() as int) =~= bytes@);
            }
        }
        i = i + 1;
    }
    proof {
        assert(s@.take(s@.len() as int) =~= s@);
    }
    out
}

/// The stored key of one remote machine's last-seen presentation.
pub fn machine_key(machine_id: &str) -> (key: String)
    ensures
        key@ == "ghostex-gpui-remote-last-seen-presentations:machine:"@ + uri_component(machine_id@),
{
    String::from_str("ghostex-gpui-remote-last-seen-presentations:machine:").concat(
        encode_uri_component(machine_id).as_str(),
    )
}

} // verus!
