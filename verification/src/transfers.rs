//! The broker's chunked transfers, put back together.
//!
//! The app runtime's broker splits a message longer than 96 Ki UTF-16 units into `chunk` pieces,
//! so a long transcript arrives in pieces. One transfer is reassembled at a time per chat: at most
//! 683 pieces of 96 Ki units each, 64 Mi units in all, 30 seconds end to end. A transfer that
//! breaks any of those rules is FAILED rather than patched, and the caller answers a failure by
//! retrying the chat.

use vstd::prelude::*;

use crate::effects::Json;
use crate::json_fields::{as_text, as_u64, get_in, get_of, opt_deref, owned, text_of, u64_of};
use crate::keyed::KeyedMap;
use crate::text::{same_text, utf16_len, utf16_units};

verus! {

broadcast use vstd::string::group_string_axioms;

/// A piece may carry at most this many UTF-16 units.
pub const MAX_PIECE_UNITS: usize = 98304;
/// A transfer has at most this many pieces.
pub const MAX_PIECES: u64 = 683;
/// A transfer carries at most this many UTF-16 units in all.
pub const MAX_TRANSFER_UNITS: usize = 67108864;
/// How long a transfer may take end to end, in milliseconds.
pub const TRANSFER_TIMEOUT_MS: u64 = 30000;

/// One transfer in flight for one chat.
pub struct Transfer {
    pub id: String,
    pub total: u64,
    pub parts: Vec<String>,
    pub units: usize,
    pub started_ms: u64,
}

/// A transfer as the contracts speak of it.
pub struct TransferView {
    pub id: Seq<char>,
    pub total: u64,
    pub parts: Seq<Seq<char>>,
    pub units: int,
    pub started_ms: u64,
}

/// The fields of one piece, each present only where the message carried it with the right type.
#[derive(Clone, Debug, PartialEq, Eq)]
pub struct PieceFields {
    pub transfer_id: Option<String>,
    pub index: Option<u64>,
    pub total: Option<u64>,
    pub data: Option<String>,
}

/// What one piece did, before the reassembled text is read as a message.
#[derive(Clone, Debug, PartialEq, Eq)]
pub enum PieceStep {
    /// More pieces are owed.
    Pending,
    /// The last piece arrived; this is the text the pieces spelled.
    Whole(String),
    /// The transfer broke and was dropped.
    Failed,
}

/// What one piece did, as the contracts speak of it.
pub enum StepView {
    Pending,
    Whole(Seq<char>),
    Failed,
}

/// The view of a transfer.
pub open spec fn transfer_view(t: Transfer) -> TransferView {
    TransferView {
        id: t.id@,
        total: t.total,
        parts: t.parts@.map_values(|p: String| p@),
        units: t.units as int,
        started_ms: t.started_ms,
    }
}

/// The transfers in flight, by chat.
pub open spec fn transfers_view(pending: KeyedMap<Transfer>) -> Map<Seq<char>, TransferView> {
    pending.as_map().map_values(|t: Transfer| transfer_view(t))
}

/// The view of a step.
pub open spec fn step_view(step: PieceStep) -> StepView {
    match step {
        PieceStep::Pending => StepView::Pending,
        PieceStep::Whole(text) => StepView::Whole(text@),
        PieceStep::Failed => StepView::Failed,
    }
}

/// The pieces, end to end.
pub open spec fn concat_all(parts: Seq<Seq<char>>) -> Seq<char>
    decreases parts.len(),
{
    if parts.len() == 0 {
        Seq::empty()
    } else {
        concat_all(parts.drop_last()) + parts.last()
    }
}

/// The UTF-16 units of all the pieces.
pub open spec fn units_all(parts: Seq<Seq<char>>) -> int
    decreases parts.len(),
{
    if parts.len() == 0 {
        0
    } else {
        units_all(parts.drop_last()) + utf16_units(parts.last())
    }
}

/// Every transfer in flight is one the rules still admit: fewer pieces than its total, which is
/// 1 to 683, a running count that is the pieces' UTF-16 units and within 64 Mi, and a start from
/// which the timeout can still be reckoned.
pub open spec fn transfers_sound(m: Map<Seq<char>, TransferView>) -> bool {
    forall|k: Seq<char>| #[trigger] m.contains_key(k) ==> {
        let t = m[k];
        &&& 1 <= t.total <= MAX_PIECES
        &&& t.parts.len() < t.total
        &&& t.units == units_all(t.parts)
        &&& t.units <= MAX_TRANSFER_UNITS
        &&& t.started_ms <= u64::MAX - TRANSFER_TIMEOUT_MS
    }
}

/// One piece `f` for the chat `key`, over the transfers in flight `m`, at `now_ms`.
pub open spec fn accept_of(
    m: Map<Seq<char>, TransferView>,
    key: Seq<char>,
    id: Option<Seq<char>>,
    index: Option<u64>,
    total: Option<u64>,
    data: Option<Seq<char>>,
    now_ms: u64,
) -> (Map<Seq<char>, TransferView>, StepView) {
    if !(id is Some && id->0.len() > 0 && index is Some && total is Some && 1 <= total->0
        <= MAX_PIECES && data is Some) {
        (m.remove(key), StepView::Failed)
    } else if utf16_units(data->0) > MAX_PIECE_UNITS {
        (m.remove(key), StepView::Failed)
    } else {
        let (id, index, total, data) = (id->0, index->0, total->0, data->0);
        let started = if index == 0 && !m.contains_key(key) {
            m.insert(
                key,
                TransferView { id, total, parts: Seq::empty(), units: 0, started_ms: now_ms },
            )
        } else {
            m
        };
        if !(started.contains_key(key) && started[key].id == id && started[key].total == total
            && started[key].parts.len() == index) {
            (started.remove(key), StepView::Failed)
        } else {
            let t = started[key];
            let units = t.units + utf16_units(data);
            if units > MAX_TRANSFER_UNITS {
                (started.remove(key), StepView::Failed)
            } else {
                let parts = t.parts.push(data);
                if parts.len() < total {
                    (
                        started.insert(
                            key,
                            TransferView {
                                id: t.id,
                                total: t.total,
                                parts,
                                units,
                                started_ms: t.started_ms,
                            },
                        ),
                        StepView::Pending,
                    )
                } else {
                    (started.remove(key), StepView::Whole(concat_all(parts)))
                }
            }
        }
    }
}

/// One piece settles only its own chat: a piece that fails or completes leaves no transfer for
/// `key`; one that leaves it pending leaves fewer pieces than its total, a total of at most 683
/// and at most 64 Mi units; every other chat's transfer is untouched.
pub proof fn law_a_piece_settles_only_its_own_chat(
    m: Map<Seq<char>, TransferView>,
    key: Seq<char>,
    id: Option<Seq<char>>,
    index: Option<u64>,
    total: Option<u64>,
    data: Option<Seq<char>>,
    now_ms: u64,
)
    requires
        transfers_sound(m),
    ensures
        ({
            let (after, step) = accept_of(m, key, id, index, total, data, now_ms);
            &&& !(step is Pending) ==> !after.contains_key(key)
            &&& step is Pending ==> after.contains_key(key) && after[key].parts.len()
                < after[key].total <= MAX_PIECES && after[key].units <= MAX_TRANSFER_UNITS
            &&& forall|k: Seq<char>|
                k != key ==> (#[trigger] after.contains_key(k) <==> m.contains_key(k)) && (
                m.contains_key(k) ==> after[k] == m[k])
        }),
{
}

/// The view of an optional string.
pub open spec fn opt_text(s: Option<String>) -> Option<Seq<char>> {
    match s {
        Some(t) => Some(t@),
        None => None,
    }
}

/// Drops the transfer of `key`, if there is one.
fn drop_transfer(pending: &mut KeyedMap<Transfer>, key: &str)
    requires
        old(pending).well_formed(),
    ensures
        final(pending).well_formed(),
        final(pending).as_map() == old(pending).as_map().remove(key@),
{
    let (at, found) = pending.locate(key);
    if found {
        pending.remove_at(at);
    } else {
        proof {
            assert(pending.as_map() =~= pending.as_map().remove(key@));
        }
    }
}

} // verus!

verus! {

/// The transfers' view after one went out.
proof fn lemma_view_remove(before: KeyedMap<Transfer>, after: KeyedMap<Transfer>, key: Seq<char>)
    requires
        after.as_map() == before.as_map().remove(key),
    ensures
        transfers_view(after) == transfers_view(before).remove(key),
{
    assert(transfers_view(after) =~= transfers_view(before).remove(key));
}

/// The transfers' view after one went in.
proof fn lemma_view_insert(
    before: KeyedMap<Transfer>,
    after: KeyedMap<Transfer>,
    key: Seq<char>,
    t: Transfer,
)
    requires
        after.as_map() == before.as_map().insert(key, t),
    ensures
        transfers_view(after) == transfers_view(before).insert(key, transfer_view(t)),
{
    assert(transfers_view(after) =~= transfers_view(before).insert(key, transfer_view(t)));
}

/// Dropping a transfer keeps the rest sound.
proof fn lemma_sound_remove(m: Map<Seq<char>, TransferView>, key: Seq<char>)
    requires
        transfers_sound(m),
    ensures
        transfers_sound(m.remove(key)),
{
    assert forall|k: Seq<char>| #[trigger] m.remove(key).contains_key(k) implies {
        let t = m.remove(key)[k];
        &&& 1 <= t.total <= MAX_PIECES
        &&& t.parts.len() < t.total
        &&& t.units == units_all(t.parts)
        &&& t.units <= MAX_TRANSFER_UNITS
        &&& t.started_ms <= u64::MAX - TRANSFER_TIMEOUT_MS
    } by {
        assert(m.contains_key(k));
    }
}

/// Putting in a sound transfer keeps the map sound.
proof fn lemma_sound_insert(m: Map<Seq<char>, TransferView>, key: Seq<char>, t: TransferView)
    requires
        transfers_sound(m),
        1 <= t.total <= MAX_PIECES,
        t.parts.len() < t.total,
        t.units == units_all(t.parts),
        t.units <= MAX_TRANSFER_UNITS,
        t.started_ms <= u64::MAX - TRANSFER_TIMEOUT_MS,
    ensures
        transfers_sound(m.insert(key, t)),
{
    assert forall|k: Seq<char>| #[trigger] m.insert(key, t).contains_key(k) implies {
        let u = m.insert(key, t)[k];
        &&& 1 <= u.total <= MAX_PIECES
        &&& u.parts.len() < u.total
        &&& u.units == units_all(u.parts)
        &&& u.units <= MAX_TRANSFER_UNITS
        &&& u.started_ms <= u64::MAX - TRANSFER_TIMEOUT_MS
    } by {
        if k != key {
            assert(m.contains_key(k));
        }
    }
}

/// The pieces of a transfer, end to end.
pub fn concat_parts(parts: &Vec<String>) -> (text: String)
    ensures
        text@ == concat_all(parts@.map_values(|p: String| p@)),
{
    let mut text = String::new();
    let mut i: usize = 0;
    while i < parts.len()
        invariant
            0 <= i <= parts@.len(),
            text@ == concat_all(parts@.take(i as int).map_values(|p: String| p@)),
        decreases parts@.len() - i,
    {
        proof {
            assert(parts@.take(i as int + 1).map_values(|p: String| p@).drop_last()
                =~= parts@.take(i as int).map_values(|p: String| p@));
        }
        text.append(parts[i].as_str());
        i = i + 1;
    }
    proof {
        assert(parts@.take(parts@.len() as int) =~= parts@);
    }
    text
}

/// One piece of a chunked transfer for the chat `key`, at `now_ms`.
///
/// A first piece starts a transfer when none is in flight; a piece that belongs to another
/// transfer, arrives out of order, or has no transfer to join fails the transfer, as does a piece
/// over 96 Ki units or a transfer over 64 Mi. The last piece hands back the text all the pieces
/// spelled, in order.
pub fn accept_piece(
    pending: &mut KeyedMap<Transfer>,
    key: &str,
    fields: &PieceFields,
    now_ms: u64,
) -> (step: PieceStep)
    requires
        old(pending).well_formed(),
        transfers_sound(transfers_view(*old(pending))),
        now_ms <= u64::MAX - TRANSFER_TIMEOUT_MS,
        fields.data matches Some(d) ==> utf16_units(d@) <= usize::MAX,
    ensures
        final(pending).well_formed(),
        transfers_sound(transfers_view(*final(pending))),
        transfers_view(*final(pending)) == accept_of(
            transfers_view(*old(pending)),
            key@,
            opt_text(fields.transfer_id),
            fields.index,
            fields.total,
            opt_text(fields.data),
            now_ms,
        ).0,
        step_view(step) == accept_of(
            transfers_view(*old(pending)),
            key@,
            opt_text(fields.transfer_id),
            fields.index,
            fields.total,
            opt_text(fields.data),
            now_ms,
        ).1,
{
    let ghost m = transfers_view(*pending);
    let ghost before = *pending;
    let (id, index, total, data) = match (&fields.transfer_id, fields.index, fields.total, &fields.data) {
        (Some(id), Some(index), Some(total), Some(data)) => (id, index, total, data),
        _ => {
            drop_transfer(pending, key);
            proof {
                lemma_view_remove(before, *pending, key@);
            }
            return PieceStep::Failed;
        },
    };
    if id.as_str().unicode_len() == 0 || total < 1 || total > MAX_PIECES {
        drop_transfer(pending, key);
        proof {
            lemma_view_remove(before, *pending, key@);
            lemma_sound_remove(m, key@);
        }
        return PieceStep::Failed;
    }
    let units = utf16_len(data.as_str());
    if units > MAX_PIECE_UNITS {
        drop_transfer(pending, key);
        proof {
            lemma_view_remove(before, *pending, key@);
            lemma_sound_remove(m, key@);
        }
        return PieceStep::Failed;
    }
    let (mut at, mut found) = pending.locate(key);
    if index == 0 && !found {
        let fresh = Transfer {
            id: id.clone(),
            total,
            parts: Vec::new(),
            units: 0,
            started_ms: now_ms,
        };
        let ghost fresh_view = fresh;
        at = pending.insert_new(String::from_str(key), fresh);
        found = true;
        proof {
            lemma_view_insert(before, *pending, key@, fresh_view);
            assert(transfer_view(fresh_view).parts =~= Seq::<Seq<char>>::empty());
            lemma_sound_insert(m, key@, transfer_view(fresh_view));
        }
    }
    let ghost started = transfers_view(*pending);
    let ghost mid = *pending;
    proof {
        if found {
            pending.lemma_key_index(at as int);
            assert(started[key@] == transfer_view(pending.entries@[at as int].1));
        } else {
            assert(!started.contains_key(key@));
        }
    }
    let joins = found && same_text(pending.entries[at].1.id.as_str(), id.as_str())
        && pending.entries[at].1.total == total && pending.entries[at].1.parts.len() as u64 == index;
    if !joins {
        drop_transfer(pending, key);
        proof {
            lemma_view_remove(mid, *pending, key@);
            lemma_sound_remove(started, key@);
        }
        return PieceStep::Failed;
    }
    proof {
        assert(started.contains_key(key@));
    }
    let sum = pending.entries[at].1.units + units;
    if sum > MAX_TRANSFER_UNITS {
        drop_transfer(pending, key);
        proof {
            lemma_view_remove(mid, *pending, key@);
            lemma_sound_remove(started, key@);
        }
        return PieceStep::Failed;
    }
    let (name, mut transfer) = pending.remove_at(at);
    let ghost without = *pending;
    proof {
        assert(pending.as_map() == mid.as_map().remove(key@));
        assert(!pending.as_map().contains_key(key@));
        assert(name@ == key@);
        assert(!pending.has(key@));
    }
    transfer.parts.push(data.clone());
    transfer.units = sum;
    let ghost grown = transfer;
    proof {
        let t = started[key@];
        assert(transfer_view(grown).parts =~= t.parts.push(data@));
        assert(t.parts.push(data@).drop_last() =~= t.parts);
    }
    if (transfer.parts.len() as u64) < transfer.total {
        pending.insert_new(name, transfer);
        proof {
            lemma_view_insert(without, *pending, key@, grown);
            assert(transfers_view(without) == started.remove(key@)) by {
                lemma_view_remove(mid, without, key@);
            }
            assert(transfers_view(*pending) =~= started.insert(key@, transfer_view(grown)));
            lemma_sound_remove(started, key@);
            assert(started.remove(key@).insert(key@, transfer_view(grown)) =~= started.insert(
                key@,
                transfer_view(grown),
            ));
            lemma_sound_insert(started, key@, transfer_view(grown));
        }
        PieceStep::Pending
    } else {
        let text = concat_parts(&transfer.parts);
        proof {
            lemma_view_remove(mid, *pending, key@);
            lemma_sound_remove(started, key@);
        }
        PieceStep::Whole(text)
    }
}

} // verus!

verus! {

/// A JSON value, as `serde_json` holds it.
#[verifier::external_type_specification]
#[verifier::external_body]
pub struct ExJsonValue(serde_json::Value);

/// The value `serde_json::from_str` reads `text` as, or `None` where it does not parse.
pub uninterp spec fn json_parse_of(text: Seq<char>) -> Option<serde_json::Value>;

/// Whether `serde_json` reads `text` as one JSON value.
pub open spec fn json_text_parses(text: Seq<char>) -> bool {
    json_parse_of(text) is Some
}

/// Reads `text` as a JSON value with `serde_json::from_str`; `None` where it does not parse. The
/// result is the one [`json_parse_of`] names: it depends on the text alone.
#[verifier::external_body]
pub(crate) fn parse_json(text: &str) -> (value: Option<serde_json::Value>)
    ensures
        value == json_parse_of(text@),
{
    serde_json::from_str::<serde_json::Value>(text).ok()
}

/// What one piece did.
pub enum Piece {
    /// More pieces are owed.
    Pending,
    /// The last piece arrived; this is the message the pieces spelled.
    Complete(serde_json::Value),
    /// The transfer broke and was dropped.
    Failed,
}

/// One piece of a chunked transfer for the chat `key`: [`accept_piece`], with the reassembled
/// text read as the message it spells. A text that does not parse fails the transfer.
pub fn accept(pending: &mut KeyedMap<Transfer>, key: &str, fields: &PieceFields, now_ms: u64) -> (
    piece: Piece)
    requires
        old(pending).well_formed(),
        transfers_sound(transfers_view(*old(pending))),
        now_ms <= u64::MAX - TRANSFER_TIMEOUT_MS,
        fields.data matches Some(d) ==> utf16_units(d@) <= usize::MAX,
    ensures
        final(pending).well_formed(),
        transfers_sound(transfers_view(*final(pending))),
        ({
            let (after, step) = accept_of(
                transfers_view(*old(pending)),
                key@,
                opt_text(fields.transfer_id),
                fields.index,
                fields.total,
                opt_text(fields.data),
                now_ms,
            );
            &&& transfers_view(*final(pending)) == after
            &&& piece is Pending <==> step is Pending
            &&& piece is Complete <==> (step matches StepView::Whole(text) && json_text_parses(
                text,
            ))
            &&& piece is Failed <==> (step is Failed || (step matches StepView::Whole(text)
                && !json_text_parses(text)))
            &&& (piece matches Piece::Complete(m) ==> (step matches StepView::Whole(text) && Some(m)
                == json_parse_of(text)))
        }),
{
    match accept_piece(pending, key, fields, now_ms) {
        PieceStep::Pending => Piece::Pending,
        PieceStep::Failed => Piece::Failed,
        PieceStep::Whole(text) => match parse_json(text.as_str()) {
            Some(message) => Piece::Complete(message),
            None => Piece::Failed,
        },
    }
}

/// The earliest moment a transfer in flight times out.
pub open spec fn deadline_of(entries: Seq<(String, Transfer)>) -> Option<int>
    decreases entries.len(),
{
    if entries.len() == 0 {
        None
    } else {
        let here = entries.last().1.started_ms + TRANSFER_TIMEOUT_MS;
        match deadline_of(entries.drop_last()) {
            Some(d) => Some(if d <= here {
                d
            } else {
                here
            }),
            None => Some(here),
        }
    }
}

/// When the oldest transfer in flight times out, so the host thread wakes for it.
pub fn deadline(pending: &KeyedMap<Transfer>) -> (at: Option<u64>)
    requires
        forall|i: int|
            0 <= i < pending.entries@.len() ==> #[trigger] pending.entries@[i].1.started_ms
                <= u64::MAX - TRANSFER_TIMEOUT_MS,
    ensures
        match at {
            Some(t) => deadline_of(pending.entries@) == Some(t as int),
            None => deadline_of(pending.entries@) is None,
        },
{
    let mut best: Option<u64> = None;
    let mut i: usize = 0;
    while i < pending.entries.len()
        invariant
            0 <= i <= pending.entries@.len(),
            forall|j: int|
                0 <= j < pending.entries@.len() ==> #[trigger] pending.entries@[j].1.started_ms
                    <= u64::MAX - TRANSFER_TIMEOUT_MS,
            match best {
                Some(t) => deadline_of(pending.entries@.take(i as int)) == Some(t as int),
                None => deadline_of(pending.entries@.take(i as int)) is None,
            },
        decreases pending.entries@.len() - i,
    {
        proof {
            assert(pending.entries@.take(i as int + 1).drop_last() =~= pending.entries@.take(
                i as int,
            ));
        }
        let here = pending.entries[i].1.started_ms + TRANSFER_TIMEOUT_MS;
        best = match best {
            Some(t) => Some(if t <= here {
                t
            } else {
                here
            }),
            None => Some(here),
        };
        i = i + 1;
    }
    proof {
        assert(pending.entries@.take(pending.entries@.len() as int) =~= pending.entries@);
    }
    best
}

/// Whether a transfer started at `started_ms` has run its 30 seconds by `now_ms`.
pub open spec fn timed_out(started_ms: u64, now_ms: u64) -> bool {
    now_ms >= started_ms && now_ms - started_ms >= TRANSFER_TIMEOUT_MS
}

/// The keys of the entries that have timed out, in order.
pub open spec fn timed_out_keys(entries: Seq<(String, Transfer)>, now_ms: u64) -> Seq<Seq<char>>
    decreases entries.len(),
{
    if entries.len() == 0 {
        Seq::empty()
    } else {
        let rest = timed_out_keys(entries.drop_last(), now_ms);
        if timed_out(entries.last().1.started_ms, now_ms) {
            rest.push(entries.last().0@)
        } else {
            rest
        }
    }
}

/// Drops every transfer past its 30 seconds and names the chats they belonged to, in key order.
pub fn expire(pending: &mut KeyedMap<Transfer>, now_ms: u64) -> (expired: Vec<String>)
    requires
        old(pending).well_formed(),
    ensures
        final(pending).well_formed(),
        expired@.map_values(|k: String| k@) == timed_out_keys(old(pending).entries@, now_ms),
        forall|k: Seq<char>|
            #[trigger] final(pending).as_map().contains_key(k) <==> old(pending).as_map().contains_key(
                k,
            ) && !timed_out(old(pending).as_map()[k].started_ms, now_ms),
        forall|k: Seq<char>|
            #[trigger] final(pending).as_map().contains_key(k) ==> final(pending).as_map()[k]
                == old(pending).as_map()[k],
{
    let ghost start = *pending;
    let mut expired: Vec<String> = Vec::new();
    let mut i: usize = 0;
    while i < pending.entries.len()
        invariant
            0 <= i <= start.entries@.len(),
            start.well_formed(),
            *pending == start,
            expired@.map_values(|k: String| k@) == timed_out_keys(
                start.entries@.take(i as int),
                now_ms,
            ),
        decreases start.entries@.len() - i,
    {
        proof {
            assert(start.entries@.take(i as int + 1).drop_last() =~= start.entries@.take(i as int));
        }
        let started = pending.entries[i].1.started_ms;
        if now_ms >= started && now_ms - started >= TRANSFER_TIMEOUT_MS {
            expired.push(pending.entries[i].0.clone());
            proof {
                assert(expired@.map_values(|k: String| k@) =~= timed_out_keys(
                    start.entries@.take(i as int + 1),
                    now_ms,
                ));
            }
        } else {
            proof {
                assert(expired@.map_values(|k: String| k@) =~= timed_out_keys(
                    start.entries@.take(i as int + 1),
                    now_ms,
                ));
            }
        }
        i = i + 1;
    }
    proof {
        assert(start.entries@.take(start.entries@.len() as int) =~= start.entries@);
    }
    let mut j: usize = 0;
    while j < pending.entries.len()
        invariant
            0 <= j <= pending.entries@.len(),
            pending.well_formed(),
            forall|k: Seq<char>|
                #[trigger] pending.as_map().contains_key(k) ==> start.as_map().contains_key(k)
                    && pending.as_map()[k] == start.as_map()[k],
            forall|k: Seq<char>|
                #[trigger] start.as_map().contains_key(k) && !timed_out(
                    start.as_map()[k].started_ms,
                    now_ms,
                ) ==> pending.as_map().contains_key(k),
            forall|a: int|
                0 <= a < j ==> !timed_out(#[trigger] pending.entries@[a].1.started_ms, now_ms),
        decreases pending.entries@.len() - j,
    {
        let started = pending.entries[j].1.started_ms;
        if now_ms >= started && now_ms - started >= TRANSFER_TIMEOUT_MS {
            let ghost cur = *pending;
            proof {
                cur.lemma_key_index(j as int);
            }
            pending.remove_at(j);
            proof {
                assert forall|a: int| 0 <= a < j implies !timed_out(
                    #[trigger] pending.entries@[a].1.started_ms,
                    now_ms,
                ) by {
                    assert(pending.entries@[a] == cur.entries@[a]);
                }
            }
        } else {
            j = j + 1;
        }
    }
    proof {
        assert forall|k: Seq<char>| #[trigger] pending.as_map().contains_key(k) implies !timed_out(
            start.as_map()[k].started_ms,
            now_ms,
        ) by {
            let a = pending.key_index(k);
            pending.lemma_key_index(a);
            assert(!timed_out(pending.entries@[a].1.started_ms, now_ms));
        }
    }
    expired
}

} // verus!

verus! {

/// The pieces `parts` of one transfer fed in order, each as piece `i` of `total`, from `m`:
/// what is left in flight and what each piece did.
pub open spec fn feed(
    m: Map<Seq<char>, TransferView>,
    key: Seq<char>,
    id: Seq<char>,
    total: u64,
    parts: Seq<Seq<char>>,
    now_ms: u64,
) -> (Map<Seq<char>, TransferView>, Seq<StepView>)
    decreases parts.len(),
{
    if parts.len() == 0 {
        (m, Seq::empty())
    } else {
        let before = feed(m, key, id, total, parts.drop_last(), now_ms);
        let after = accept_of(
            before.0,
            key,
            Some(id),
            Some((parts.len() - 1) as u64),
            Some(total),
            Some(parts.last()),
            now_ms,
        );
        (after.0, before.1.push(after.1))
    }
}

/// A prefix of the pieces takes no more units than all of them.
proof fn lemma_units_prefix(parts: Seq<Seq<char>>, k: int)
    requires
        0 <= k <= parts.len(),
    ensures
        0 <= units_all(parts.take(k)) <= units_all(parts),
    decreases parts.len() - k,
{
    if k < parts.len() {
        lemma_units_prefix(parts, k + 1);
        assert(parts.take(k + 1).drop_last() =~= parts.take(k));
    } else {
        assert(parts.take(k) =~= parts);
    }
    lemma_units_nonneg(parts.take(k));
}

/// Units are never negative.
proof fn lemma_units_nonneg(parts: Seq<Seq<char>>)
    ensures
        units_all(parts) >= 0,
    decreases parts.len(),
{
    if parts.len() > 0 {
        lemma_units_nonneg(parts.drop_last());
    }
}

/// After the first `k` of fewer than `total` pieces, the transfer is in flight with exactly
/// those pieces, and every one of them answered `Pending`.
proof fn lemma_feed_prefix(
    m: Map<Seq<char>, TransferView>,
    key: Seq<char>,
    id: Seq<char>,
    parts: Seq<Seq<char>>,
    now_ms: u64,
    k: int,
)
    requires
        !m.contains_key(key),
        id.len() > 0,
        1 <= parts.len() <= MAX_PIECES,
        forall|i: int| 0 <= i < parts.len() ==> utf16_units(#[trigger] parts[i]) <= MAX_PIECE_UNITS,
        units_all(parts) <= MAX_TRANSFER_UNITS,
        1 <= k < parts.len(),
    ensures
        feed(m, key, id, parts.len() as u64, parts.take(k), now_ms).0 == m.insert(
            key,
            TransferView {
                id,
                total: parts.len() as u64,
                parts: parts.take(k),
                units: units_all(parts.take(k)),
                started_ms: now_ms,
            },
        ),
        forall|i: int|
            0 <= i < k ==> #[trigger] feed(m, key, id, parts.len() as u64, parts.take(k), now_ms).1[i]
                is Pending,
        feed(m, key, id, parts.len() as u64, parts.take(k), now_ms).1.len() == k,
    decreases k,
{
    let total = parts.len() as u64;
    let p = parts.take(k);
    assert(p.drop_last() =~= parts.take(k - 1));
    assert(p.last() == parts[k - 1]);
    lemma_units_prefix(parts, k);
    if k == 1 {
        assert(parts.take(0) =~= Seq::<Seq<char>>::empty());
        assert(feed(m, key, id, total, parts.take(0), now_ms) == (m, Seq::<StepView>::empty()));
        assert(Seq::<Seq<char>>::empty().push(parts[0]) =~= p);
        assert(Seq::<Seq<char>>::empty().push(parts[0]).drop_last() =~= Seq::<Seq<char>>::empty());
    } else {
        lemma_feed_prefix(m, key, id, parts, now_ms, k - 1);
        lemma_units_prefix(parts, k - 1);
        assert(parts.take(k - 1).push(parts[k - 1]) =~= p);
    }
    let before = feed(m, key, id, total, p.drop_last(), now_ms);
    assert(before.1.push(StepView::Pending).len() == k);
}

/// Pieces fed in order, `0` to `total - 1`, each within its bound and all within the transfer's,
/// answer `Pending` until the last, which answers with the text all of them spelled in order;
/// and nothing of the transfer is left in flight after it.
pub proof fn law_in_order_pieces_spell_the_message(
    m: Map<Seq<char>, TransferView>,
    key: Seq<char>,
    id: Seq<char>,
    parts: Seq<Seq<char>>,
    now_ms: u64,
)
    requires
        !m.contains_key(key),
        id.len() > 0,
        1 <= parts.len() <= MAX_PIECES,
        forall|i: int| 0 <= i < parts.len() ==> utf16_units(#[trigger] parts[i]) <= MAX_PIECE_UNITS,
        units_all(parts) <= MAX_TRANSFER_UNITS,
    ensures
        feed(m, key, id, parts.len() as u64, parts, now_ms).0 == m,
        feed(m, key, id, parts.len() as u64, parts, now_ms).1.len() == parts.len(),
        forall|i: int|
            0 <= i < parts.len() - 1 ==> #[trigger] feed(
                m,
                key,
                id,
                parts.len() as u64,
                parts,
                now_ms,
            ).1[i] is Pending,
        feed(m, key, id, parts.len() as u64, parts, now_ms).1.last() == StepView::Whole(
            concat_all(parts),
        ),
{
    let n = parts.len() as int;
    let total = parts.len() as u64;
    assert(parts.drop_last() =~= parts.take(n - 1));
    if n == 1 {
        assert(parts.take(0) =~= Seq::<Seq<char>>::empty());
        assert(parts.drop_last() =~= Seq::<Seq<char>>::empty());
        assert(Seq::<Seq<char>>::empty().push(parts[0]) =~= parts);
        assert(concat_all(Seq::<Seq<char>>::empty().push(parts[0])) == concat_all(
            Seq::<Seq<char>>::empty(),
        ) + parts[0]);
    } else {
        lemma_feed_prefix(m, key, id, parts, now_ms, n - 1);
        lemma_units_prefix(parts, n - 1);
        assert(parts.take(n - 1).push(parts[n - 1]) =~= parts);
    }
    let before = feed(m, key, id, total, parts.drop_last(), now_ms);
    let last = accept_of(before.0, key, Some(id), Some((n - 1) as u64), Some(total), Some(parts.last()), now_ms);
    assert(last.0 =~= m);
}

/// A piece that fails drops its chat's transfer and leaves every other chat's as it was.
pub proof fn law_failure_drops_the_transfer(
    m: Map<Seq<char>, TransferView>,
    key: Seq<char>,
    id: Option<Seq<char>>,
    index: Option<u64>,
    total: Option<u64>,
    data: Option<Seq<char>>,
    now_ms: u64,
)
    requires
        accept_of(m, key, id, index, total, data, now_ms).1 is Failed,
    ensures
        accept_of(m, key, id, index, total, data, now_ms).0 == m.remove(key),
{
    let r = accept_of(m, key, id, index, total, data, now_ms);
    if id is Some && id->0.len() > 0 && index is Some && total is Some && 1 <= total->0
        <= MAX_PIECES && data is Some && utf16_units(data->0) <= MAX_PIECE_UNITS && index->0 == 0
        && !m.contains_key(key) {
        let started = m.insert(
            key,
            TransferView {
                id: id->0,
                total: total->0,
                parts: Seq::empty(),
                units: 0,
                started_ms: now_ms,
            },
        );
        assert(started.remove(key) =~= m.remove(key));
    }
}

/// The member `name` of an optional message.
pub open spec fn field_of(message: Option<Json>, name: Seq<char>) -> Option<Json> {
    match message {
        Some(m) => get_of(m, name),
        None => None,
    }
}

/// Whether a broker message is a piece of a transfer: its `kind` is `chunk`.
pub fn is_piece(message: Option<&Json>) -> (piece: bool)
    ensures
        piece == (text_of(field_of(opt_deref(message), "kind"@)) == Some("chunk"@)),
{
    match as_text(get_in(message, "kind")) {
        Some(k) => crate::text::same_text(k, "chunk"),
        None => false,
    }
}

/// The fields of one piece, each where the message carries it with the right type.
pub fn piece_fields(message: Option<&Json>) -> (fields: PieceFields)
    ensures
        opt_text(fields.transfer_id) == text_of(field_of(opt_deref(message), "transferId"@)),
        fields.index == u64_of(field_of(opt_deref(message), "index"@)),
        fields.total == u64_of(field_of(opt_deref(message), "total"@)),
        opt_text(fields.data) == text_of(field_of(opt_deref(message), "data"@)),
{
    PieceFields {
        transfer_id: owned(as_text(get_in(message, "transferId"))),
        index: as_u64(get_in(message, "index")),
        total: as_u64(get_in(message, "total")),
        data: owned(as_text(get_in(message, "data"))),
    }
}

} // verus!
