//! The chat's client-storage catalog: which stores it owns, where each one's rows live, and the
//! keys and budgets a read or a write of one of them goes by.
//!
//! The chat names a store and a per-session suffix and never builds a key string itself; this
//! module owns the prefix, the backend and the budget. A store on `local` keeps one raw string per
//! key in the `preferences` table; a store on the records backend keeps the whole row in `records`,
//! with the bounds of [`RecordStore`].

use vstd::prelude::*;

use crate::records::RecordStore;
use crate::text::{chars_of, matches_at, same_text, starts_with_text, utf16_len, utf16_units};

verus! {

broadcast use vstd::string::group_string_axioms;

pub const KIB: i64 = 1024;
pub const MIB: i64 = 1048576;
pub const DAY_MS: i64 = 86400000;

/// Where a catalogued store's rows live.
#[derive(Clone, Copy, Debug, PartialEq, Eq)]
pub enum Backend {
    /// The `preferences` table: one raw string per key.
    Local,
    /// The `records` table: the whole row, with bounds and metadata.
    Records(RecordStore),
}

/// One chat-owned row of the client-storage catalog.
#[derive(Clone, Copy, Debug, PartialEq, Eq)]
pub struct ChatStore {
    /// The store's name, as the chat asks for it.
    pub id: &'static str,
    /// A prefix for a collection, the whole key for a singleton.
    pub prefix: &'static str,
    /// A singleton refuses a suffix.
    pub collection: bool,
    pub backend: Backend,
}

/// A record the chat names: a store and the suffix within it.
#[derive(Clone, Debug, PartialEq, Eq)]
pub struct StorageKey {
    pub store: String,
    pub suffix: String,
}

/// The `disk` shorthand: a records collection, 2 MiB an entry, 16 MiB a store, 2000 entries.
pub open spec fn disk_of(id: &'static str, max_age_ms: Option<i64>) -> Backend {
    Backend::Records(
        RecordStore {
            id,
            version: 1,
            max_entry_bytes: 2097152,
            max_bytes: 16777216,
            max_entries: 2000,
            max_age_ms,
        },
    )
}

/// The `protectedDisk` shorthand: `disk` with 50,000 entries and 32 MiB, and no eviction.
pub open spec fn protected_disk_of(id: &'static str) -> Backend {
    Backend::Records(
        RecordStore {
            id,
            version: 1,
            max_entry_bytes: 2097152,
            max_bytes: 33554432,
            max_entries: 50000,
            max_age_ms: None,
        },
    )
}

/// The `disk` shorthand.
pub fn disk(id: &'static str, max_age_ms: Option<i64>) -> (backend: Backend)
    ensures
        backend == disk_of(id, max_age_ms),
{
    Backend::Records(
        RecordStore {
            id,
            version: 1,
            max_entry_bytes: 2097152,
            max_bytes: 16777216,
            max_entries: 2000,
            max_age_ms,
        },
    )
}

/// The `protectedDisk` shorthand.
pub fn protected_disk(id: &'static str) -> (backend: Backend)
    ensures
        backend == protected_disk_of(id),
{
    Backend::Records(
        RecordStore {
            id,
            version: 1,
            max_entry_bytes: 2097152,
            max_bytes: 33554432,
            max_entries: 50000,
            max_age_ms: None,
        },
    )
}

/// Every store the chat or its host reads or writes, in catalog order.
pub open spec fn catalog() -> Seq<ChatStore> {
    seq![
        ChatStore { id: "verbose", prefix: "ghostex.sessionChat.verbose.", collection: true, backend: disk_of("verbose", None) },
        ChatStore { id: "summary", prefix: "ghostex.sessionChat.summary.", collection: true, backend: disk_of("summary", None) },
        ChatStore { id: "tasksCollapsed", prefix: "ghostex.chat.agentTasks.collapsed", collection: false, backend: Backend::Local },
        ChatStore { id: "claudeContext", prefix: "ghostex.chat.context-details.v1", collection: false, backend: Backend::Local },
        ChatStore { id: "codexContext", prefix: "ghostex.chat.context-details.codex.v1", collection: false, backend: Backend::Local },
        ChatStore { id: "cursorContext", prefix: "ghostex.chat.context-details.cursor.v1", collection: false, backend: Backend::Local },
        ChatStore { id: "notices", prefix: "ghostex.sessionChat.noticeDismissed.", collection: true, backend: disk_of("notices", None) },
        ChatStore { id: "sessionOptions", prefix: "ghostex.sessionChat.options.", collection: true, backend: disk_of("sessionOptions", Some(2592000000)) },
        ChatStore { id: "modelFavorites", prefix: "ghostex.model-favorites", collection: false, backend: Backend::Local },
        ChatStore { id: "modelCatalog", prefix: "ghostex.agentModelCatalog.v1", collection: false, backend: Backend::Records(RecordStore { id: "modelCatalog", version: 1, max_entry_bytes: 2097152, max_bytes: 16777216, max_entries: 1, max_age_ms: Some(2592000000) }) },
        ChatStore { id: "modelOutbox", prefix: "ghostex.model-selection-outbox.", collection: true, backend: protected_disk_of("modelOutbox") },
        ChatStore { id: "retiredQuestions", prefix: "ghostex:async-questions:", collection: true, backend: protected_disk_of("retiredQuestions") },
        ChatStore { id: "questionDrafts", prefix: "ghostex.sessionChat.questionDraft.", collection: true, backend: protected_disk_of("questionDrafts") },
        ChatStore { id: "chatClient", prefix: "ghostex.sessionChat.clientId", collection: false, backend: Backend::Local },
        ChatStore { id: "returnedPrompts", prefix: "ghostex.sessionChat.returnedPrompts.applied", collection: false, backend: Backend::Local },
        ChatStore { id: "drafts", prefix: "ghostex.sessionChat.draft.", collection: true, backend: protected_disk_of("drafts") },
        ChatStore { id: "recovery", prefix: "ghostex.sessionChat.recovery.", collection: true, backend: protected_disk_of("recovery") },
        ChatStore { id: "recoveryDismissed", prefix: "ghostex.sessionChat.recoveryDismissed.", collection: true, backend: protected_disk_of("recoveryDismissed") },
        ChatStore { id: "draftOutbox", prefix: "ghostex.sessionChat.outbox.", collection: true, backend: protected_disk_of("draftOutbox") },
        ChatStore { id: "sentHistory", prefix: "ghostex.sessionChat.sent.", collection: true, backend: Backend::Records(RecordStore { id: "sentHistory", version: 1, max_entry_bytes: 2097152, max_bytes: 16777216, max_entries: 50, max_age_ms: None }) },
        ChatStore { id: "deliveryReceipts", prefix: "ghostex.sessionChat.delivered.", collection: true, backend: protected_disk_of("deliveryReceipts") },
        ChatStore { id: "chatSnapshots", prefix: "ghostex.sessionChat.snapshot.", collection: true, backend: Backend::Records(RecordStore { id: "chatSnapshots", version: 1, max_entry_bytes: 2097152, max_bytes: 33554432, max_entries: 24, max_age_ms: Some(604800000) }) },
    ]
}

/// The catalog, in its order.
pub fn catalog_rows() -> (rows: Vec<ChatStore>)
    ensures
        rows@ == catalog(),
{
    let mut rows: Vec<ChatStore> = Vec::new();
    rows.push(ChatStore { id: "verbose", prefix: "ghostex.sessionChat.verbose.", collection: true, backend: disk("verbose", None) });
    rows.push(ChatStore { id: "summary", prefix: "ghostex.sessionChat.summary.", collection: true, backend: disk("summary", None) });
    rows.push(ChatStore { id: "tasksCollapsed", prefix: "ghostex.chat.agentTasks.collapsed", collection: false, backend: Backend::Local });
    rows.push(ChatStore { id: "claudeContext", prefix: "ghostex.chat.context-details.v1", collection: false, backend: Backend::Local });
    rows.push(ChatStore { id: "codexContext", prefix: "ghostex.chat.context-details.codex.v1", collection: false, backend: Backend::Local });
    rows.push(ChatStore { id: "cursorContext", prefix: "ghostex.chat.context-details.cursor.v1", collection: false, backend: Backend::Local });
    rows.push(ChatStore { id: "notices", prefix: "ghostex.sessionChat.noticeDismissed.", collection: true, backend: disk("notices", None) });
    rows.push(ChatStore { id: "sessionOptions", prefix: "ghostex.sessionChat.options.", collection: true, backend: disk("sessionOptions", Some(2592000000)) });
    rows.push(ChatStore { id: "modelFavorites", prefix: "ghostex.model-favorites", collection: false, backend: Backend::Local });
    rows.push(ChatStore { id: "modelCatalog", prefix: "ghostex.agentModelCatalog.v1", collection: false, backend: Backend::Records(RecordStore { id: "modelCatalog", version: 1, max_entry_bytes: 2097152, max_bytes: 16777216, max_entries: 1, max_age_ms: Some(2592000000) }) });
    rows.push(ChatStore { id: "modelOutbox", prefix: "ghostex.model-selection-outbox.", collection: true, backend: protected_disk("modelOutbox") });
    rows.push(ChatStore { id: "retiredQuestions", prefix: "ghostex:async-questions:", collection: true, backend: protected_disk("retiredQuestions") });
    rows.push(ChatStore { id: "questionDrafts", prefix: "ghostex.sessionChat.questionDraft.", collection: true, backend: protected_disk("questionDrafts") });
    rows.push(ChatStore { id: "chatClient", prefix: "ghostex.sessionChat.clientId", collection: false, backend: Backend::Local });
    rows.push(ChatStore { id: "returnedPrompts", prefix: "ghostex.sessionChat.returnedPrompts.applied", collection: false, backend: Backend::Local });
    rows.push(ChatStore { id: "drafts", prefix: "ghostex.sessionChat.draft.", collection: true, backend: protected_disk("drafts") });
    rows.push(ChatStore { id: "recovery", prefix: "ghostex.sessionChat.recovery.", collection: true, backend: protected_disk("recovery") });
    rows.push(ChatStore { id: "recoveryDismissed", prefix: "ghostex.sessionChat.recoveryDismissed.", collection: true, backend: protected_disk("recoveryDismissed") });
    rows.push(ChatStore { id: "draftOutbox", prefix: "ghostex.sessionChat.outbox.", collection: true, backend: protected_disk("draftOutbox") });
    rows.push(ChatStore { id: "sentHistory", prefix: "ghostex.sessionChat.sent.", collection: true, backend: Backend::Records(RecordStore { id: "sentHistory", version: 1, max_entry_bytes: 2097152, max_bytes: 16777216, max_entries: 50, max_age_ms: None }) });
    rows.push(ChatStore { id: "deliveryReceipts", prefix: "ghostex.sessionChat.delivered.", collection: true, backend: protected_disk("deliveryReceipts") });
    rows.push(ChatStore { id: "chatSnapshots", prefix: "ghostex.sessionChat.snapshot.", collection: true, backend: Backend::Records(RecordStore { id: "chatSnapshots", version: 1, max_entry_bytes: 2097152, max_bytes: 33554432, max_entries: 24, max_age_ms: Some(604800000) }) });
    proof {
        assert(rows@ =~= catalog());
    }
    rows
}

/// The first row of `rows` named `id`.
pub open spec fn first_store(rows: Seq<ChatStore>, id: Seq<char>) -> Option<ChatStore>
    decreases rows.len(),
{
    if rows.len() == 0 {
        None
    } else if rows[0].id@ == id {
        Some(rows[0])
    } else {
        first_store(rows.drop_first(), id)
    }
}

/// The catalog row for a store name, `None` for a store this build does not own.
pub open spec fn store_of(id: Seq<char>) -> Option<ChatStore> {
    first_store(catalog(), id)
}

/// The catalog row for a store name.
pub fn store(id: &str) -> (row: Option<ChatStore>)
    ensures
        row == store_of(id@),
{
    let rows = catalog_rows();
    let mut i: usize = 0;
    proof {
        assert(rows@.skip(0) == rows@);
    }
    while i < rows.len()
        invariant
            0 <= i <= rows@.len(),
            rows@ == catalog(),
            first_store(rows@, id@) == first_store(rows@.skip(i as int), id@),
        decreases rows@.len() - i,
    {
        proof {
            assert(rows@.skip(i as int).drop_first() == rows@.skip(i as int + 1));
            assert(rows@.skip(i as int)[0] == rows@[i as int]);
        }
        if same_text(rows[i].id, id) {
            return Some(rows[i]);
        }
        i = i + 1;
    }
    None
}

/// The full key a [`StorageKey`] names: the store's prefix and the suffix; `None` when the store
/// is unknown or a singleton was handed a suffix.
pub open spec fn full_key_of(store: Seq<char>, suffix: Seq<char>) -> Option<Seq<char>> {
    match store_of(store) {
        Some(row) => if !row.collection && suffix.len() > 0 {
            None
        } else {
            Some(row.prefix@ + suffix)
        },
        None => None,
    }
}

/// The full key a [`StorageKey`] names.
pub fn full_key(key: &StorageKey) -> (full: Option<String>)
    ensures
        match full {
            Some(f) => full_key_of(key.store@, key.suffix@) == Some(f@),
            None => full_key_of(key.store@, key.suffix@) is None,
        },
{
    let row = match store(key.store.as_str()) {
        Some(row) => row,
        None => return None,
    };
    if !row.collection && key.suffix.as_str().unicode_len() > 0 {
        return None;
    }
    let mut full = String::from_str(row.prefix);
    full.append(key.suffix.as_str());
    Some(full)
}

/// The conservative UTF-16 accounting of a key and its value together: two bytes a unit.
pub open spec fn storage_bytes_of(key: Seq<char>, raw: Seq<char>) -> int {
    (2 * (utf16_units(key) + utf16_units(raw))) as int
}

/// Two bytes for every UTF-16 unit of the key and the value.
pub fn storage_bytes(key: &str, raw: &str) -> (bytes: i64)
    requires
        utf16_units(key@) <= usize::MAX,
        utf16_units(raw@) <= usize::MAX,
        storage_bytes_of(key@, raw@) <= i64::MAX,
    ensures
        bytes == storage_bytes_of(key@, raw@),
{
    let k = utf16_len(key) as u64;
    let r = utf16_len(raw) as u64;
    (2 * (k + r)) as i64
}

} // verus!

verus! {

/// A local row may hold 64 KiB, key and value together in the UTF-16 accounting.
pub const MAX_LOCAL_ENTRY_BYTES: i64 = 65536;

/// Where one read of a catalogued record goes.
#[derive(Clone, Debug, PartialEq, Eq)]
pub enum StorageRead {
    /// The `preferences` row under this key.
    Local { key: String },
    /// The `records` row under this key, for this store.
    Records { store: RecordStore, key: String },
}

/// The view of where a read goes.
pub open spec fn read_target_of(key: StorageKey) -> Option<(Backend, Seq<char>)> {
    match (store_of(key.store@), full_key_of(key.store@, key.suffix@)) {
        (Some(row), Some(full)) => Some((row.backend, full)),
        _ => None,
    }
}

/// Where a read of `key` goes, or `unregistered` for a store this build does not own or a
/// singleton handed a suffix.
pub fn read(key: &StorageKey) -> (target: Result<StorageRead, &'static str>)
    ensures
        match target {
            Ok(StorageRead::Local { key: k }) => read_target_of(*key) == Some((Backend::Local, k@)),
            Ok(StorageRead::Records { store, key: k }) => read_target_of(*key) == Some(
                (Backend::Records(store), k@),
            ),
            Err(e) => read_target_of(*key) is None && e@ == "unregistered"@,
        },
{
    let row = match store(key.store.as_str()) {
        Some(row) => row,
        None => return Err("unregistered"),
    };
    let name = match full_key(key) {
        Some(name) => name,
        None => return Err("unregistered"),
    };
    match row.backend {
        Backend::Local => Ok(StorageRead::Local { key: name }),
        Backend::Records(store) => Ok(StorageRead::Records { store, key: name }),
    }
}

/// What one write of a catalogued record does.
#[derive(Clone, Debug, PartialEq, Eq)]
pub enum StorageWrite {
    /// Upsert the `preferences` row.
    LocalPut { key: String, raw: String },
    /// Delete the `preferences` row.
    LocalDelete { key: String },
    /// Write the `records` row, held to the store's bounds.
    RecordPut { store: RecordStore, key: String, raw: String },
    /// Delete the `records` row.
    RecordDelete { key: String },
}

/// The view of an optional string slice.
pub open spec fn opt_str(s: Option<&str>) -> Option<Seq<char>> {
    match s {
        Some(t) => Some(t@),
        None => None,
    }
}

/// Why a write is refused: `unregistered` for a key the catalog does not admit, `entry` for a
/// local value whose key and value together take more than 64 KiB.
pub open spec fn write_refusal_of(key: StorageKey, value: Option<Seq<char>>) -> Option<Seq<char>> {
    match read_target_of(key) {
        None => Some("unregistered"@),
        Some((Backend::Local, k)) => match value {
            Some(v) => if storage_bytes_of(k, v) > MAX_LOCAL_ENTRY_BYTES {
                Some("entry"@)
            } else {
                None
            },
            None => None,
        },
        Some(_) => None,
    }
}

/// Writes one record, or removes it when `value` is `None`: what the write does, `unregistered`
/// for a key the catalog does not admit, and `entry` for a local value over its 64 KiB. A value
/// that breaks a bound is refused, never truncated.
pub fn write(key: &StorageKey, value: Option<&str>) -> (action: Result<StorageWrite, &'static str>)
    requires
        forall|b: Backend, k: Seq<char>|
            read_target_of(*key) == Some((b, k)) && value is Some ==> utf16_units(k) <= usize::MAX
                && utf16_units(value->0@) <= usize::MAX && storage_bytes_of(k, value->0@)
                <= i64::MAX,
    ensures
        action is Err <==> write_refusal_of(*key, opt_str(value)) is Some,
        action matches Err(e) ==> write_refusal_of(*key, opt_str(value)) == Some(e@),
        match action {
            Ok(StorageWrite::LocalPut { key: k, raw }) => read_target_of(*key) == Some(
                (Backend::Local, k@),
            ) && value is Some && raw@ == value->0@,
            Ok(StorageWrite::LocalDelete { key: k }) => read_target_of(*key) == Some(
                (Backend::Local, k@),
            ) && value is None,
            Ok(StorageWrite::RecordPut { store, key: k, raw }) => read_target_of(*key) == Some(
                (Backend::Records(store), k@),
            ) && value is Some && raw@ == value->0@,
            Ok(StorageWrite::RecordDelete { key: k }) => read_target_of(*key) matches Some(
                (Backend::Records(_), t),
            ) && t == k@ && value is None,
            Err(_) => true,
        },
{
    let target = read(key);
    let (backend, name) = match target {
        Ok(StorageRead::Local { key: k }) => (Backend::Local, k),
        Ok(StorageRead::Records { store, key: k }) => (Backend::Records(store), k),
        Err(e) => return Err(e),
    };
    match backend {
        Backend::Local => match value {
            Some(raw) => {
                if storage_bytes(name.as_str(), raw) > MAX_LOCAL_ENTRY_BYTES {
                    return Err("entry");
                }
                Ok(StorageWrite::LocalPut { key: name, raw: String::from_str(raw) })
            },
            None => Ok(StorageWrite::LocalDelete { key: name }),
        },
        Backend::Records(store) => match value {
            Some(raw) => Ok(StorageWrite::RecordPut { store, key: name, raw: String::from_str(raw) }),
            None => Ok(StorageWrite::RecordDelete { key: name }),
        },
    }
}

} // verus!

verus! {

/// Where a scan of a collection store goes: the store's rows whose key starts with `full_prefix`,
/// handed back with the store's own `store_prefix` taken off.
#[derive(Clone, Debug, PartialEq, Eq)]
pub struct ScanPlan {
    pub store: RecordStore,
    pub store_prefix: &'static str,
    pub full_prefix: String,
}

/// Plans a scan of `store_id` for the records whose suffix starts with `prefix`: `unregistered`
/// for an unknown store, nothing to scan for a singleton or a store on `local`.
pub fn scan(store_id: &str, prefix: &str) -> (plan: Result<Option<ScanPlan>, &'static str>)
    ensures
        match store_of(store_id@) {
            None => plan matches Err(e) && e@ == "unregistered"@,
            Some(row) => match row.backend {
                Backend::Records(definition) if row.collection => plan matches Ok(Some(p))
                    && p.store == definition && p.store_prefix == row.prefix && p.full_prefix@
                    == row.prefix@ + prefix@,
                _ => plan == Ok::<Option<ScanPlan>, &'static str>(None),
            },
        },
{
    let row = match store(store_id) {
        Some(row) => row,
        None => return Err("unregistered"),
    };
    if !row.collection {
        return Ok(None);
    }
    match row.backend {
        Backend::Records(definition) => {
            let mut full_prefix = String::from_str(row.prefix);
            full_prefix.append(prefix);
            Ok(Some(ScanPlan { store: definition, store_prefix: row.prefix, full_prefix }))
        },
        Backend::Local => Ok(None),
    }
}

/// The view of a row list.
pub open spec fn rows_view(rows: Seq<(String, String)>) -> Seq<(Seq<char>, Seq<char>)> {
    rows.map_values(|row: (String, String)| (row.0@, row.1@))
}

/// The rows under `prefix`, each as `(suffix, raw)` with the prefix taken off its key, in order.
pub open spec fn stripped_rows(prefix: Seq<char>, rows: Seq<(Seq<char>, Seq<char>)>) -> Seq<
    (Seq<char>, Seq<char>),
>
    decreases rows.len(),
{
    if rows.len() == 0 {
        Seq::empty()
    } else {
        let rest = stripped_rows(prefix, rows.drop_last());
        let row = rows.last();
        if starts_with_text(row.0, prefix) {
            rest.push((row.0.skip(prefix.len() as int), row.1))
        } else {
            rest
        }
    }
}

/// What a scan hands back: each row's suffix, which is its key past the store's prefix.
pub fn scanned_suffixes(store_prefix: &str, rows: Vec<(String, String)>) -> (suffixes: Vec<
    (String, String),
>)
    ensures
        rows_view(suffixes@) == stripped_rows(store_prefix@, rows_view(rows@)),
{
    let prefix = chars_of(store_prefix);
    let mut suffixes: Vec<(String, String)> = Vec::new();
    let mut i: usize = 0;
    while i < rows.len()
        invariant
            0 <= i <= rows@.len(),
            prefix@ == store_prefix@,
            rows_view(suffixes@) == stripped_rows(store_prefix@, rows_view(rows@.take(i as int))),
        decreases rows@.len() - i,
    {
        let key = rows[i].0.as_str();
        let chars = chars_of(key);
        proof {
            assert(rows_view(rows@.take(i as int + 1)).drop_last() == rows_view(rows@.take(i as int)));
            assert(rows_view(rows@.take(i as int + 1)).last() == (rows@[i as int].0@, rows@[i as int].1@));
        }
        if matches_at(&chars, &prefix, 0) {
            let rest = key.substring_char(prefix.len(), chars.len());
            let raw = rows[i].1.clone();
            suffixes.push((String::from_str(rest), raw));
            proof {
                assert(rows_view(suffixes@) =~= stripped_rows(
                    store_prefix@,
                    rows_view(rows@.take(i as int + 1)),
                ));
            }
        } else {
            proof {
                assert(rows_view(suffixes@) =~= stripped_rows(
                    store_prefix@,
                    rows_view(rows@.take(i as int + 1)),
                ));
            }
        }
        i = i + 1;
    }
    proof {
        assert(rows@.take(rows@.len() as int) == rows@);
    }
    suffixes
}

} // verus!
