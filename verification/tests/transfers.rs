use ghostex_desktop::effects::Json;
use ghostex_desktop::transfers::{is_piece, piece_fields};
use ghostex_desktop::keyed::KeyedMap;
use ghostex_desktop::transfers::{
    accept, accept_piece, concat_parts, deadline, expire, Piece, PieceFields, PieceStep,
    MAX_PIECE_UNITS, TRANSFER_TIMEOUT_MS,
};

fn piece(id: &str, index: u64, total: u64, data: &str) -> PieceFields {
    PieceFields {
        transfer_id: Some(id.to_string()),
        index: Some(index),
        total: Some(total),
        data: Some(data.to_string()),
    }
}

#[test]
fn in_order_pieces_spell_the_message() {
    let mut pending = KeyedMap::new();
    assert_eq!(accept_piece(&mut pending, "chat", &piece("t", 0, 3, "ab"), 100), PieceStep::Pending);
    assert_eq!(accept_piece(&mut pending, "chat", &piece("t", 1, 3, "cd"), 110), PieceStep::Pending);
    assert_eq!(
        accept_piece(&mut pending, "chat", &piece("t", 2, 3, "e"), 120),
        PieceStep::Whole("abcde".to_string())
    );
    assert_eq!(pending.len(), 0);
}

#[test]
fn a_complete_transfer_is_read_as_json() {
    let mut pending = KeyedMap::new();
    assert!(matches!(accept(&mut pending, "c", &piece("t", 0, 2, "{\"a\":"), 0), Piece::Pending));
    match accept(&mut pending, "c", &piece("t", 1, 2, "1}"), 0) {
        Piece::Complete(value) => assert_eq!(value["a"], 1),
        _ => panic!("the message must parse"),
    }
}

#[test]
fn text_that_does_not_parse_fails_the_transfer() {
    let mut pending = KeyedMap::new();
    assert!(matches!(accept(&mut pending, "c", &piece("t", 0, 1, "{oops"), 0), Piece::Failed));
    assert_eq!(pending.len(), 0);
}

#[test]
fn an_out_of_order_piece_fails_and_drops_the_transfer() {
    let mut pending = KeyedMap::new();
    accept_piece(&mut pending, "chat", &piece("t", 0, 3, "a"), 0);
    assert_eq!(accept_piece(&mut pending, "chat", &piece("t", 2, 3, "c"), 0), PieceStep::Failed);
    assert_eq!(pending.len(), 0);
}

#[test]
fn a_piece_of_another_transfer_fails() {
    let mut pending = KeyedMap::new();
    accept_piece(&mut pending, "chat", &piece("t", 0, 3, "a"), 0);
    assert_eq!(accept_piece(&mut pending, "chat", &piece("u", 1, 3, "b"), 0), PieceStep::Failed);
}

#[test]
fn a_piece_with_no_transfer_to_join_fails() {
    let mut pending = KeyedMap::new();
    assert_eq!(accept_piece(&mut pending, "chat", &piece("t", 1, 3, "b"), 0), PieceStep::Failed);
}

#[test]
fn missing_fields_and_bad_totals_fail() {
    let mut pending = KeyedMap::new();
    let mut fields = piece("t", 0, 2, "a");
    fields.data = None;
    assert_eq!(accept_piece(&mut pending, "chat", &fields, 0), PieceStep::Failed);
    assert_eq!(accept_piece(&mut pending, "chat", &piece("", 0, 2, "a"), 0), PieceStep::Failed);
    assert_eq!(accept_piece(&mut pending, "chat", &piece("t", 0, 0, "a"), 0), PieceStep::Failed);
    assert_eq!(accept_piece(&mut pending, "chat", &piece("t", 0, 684, "a"), 0), PieceStep::Failed);
    assert_eq!(accept_piece(&mut pending, "chat", &piece("t", 0, 683, "a"), 0), PieceStep::Pending);
}

#[test]
fn an_oversized_piece_fails() {
    let mut pending = KeyedMap::new();
    let big = "x".repeat(MAX_PIECE_UNITS + 1);
    assert_eq!(accept_piece(&mut pending, "chat", &piece("t", 0, 2, &big), 0), PieceStep::Failed);
    let exact = "x".repeat(MAX_PIECE_UNITS);
    assert_eq!(accept_piece(&mut pending, "chat", &piece("t", 0, 2, &exact), 0), PieceStep::Pending);
}

#[test]
fn transfers_time_out_after_thirty_seconds() {
    let mut pending = KeyedMap::new();
    accept_piece(&mut pending, "b", &piece("t", 0, 2, "x"), 1_000);
    accept_piece(&mut pending, "a", &piece("t", 0, 2, "x"), 5_000);
    assert_eq!(deadline(&pending), Some(1_000 + TRANSFER_TIMEOUT_MS));
    assert_eq!(expire(&mut pending, 30_999), Vec::<String>::new());
    assert_eq!(expire(&mut pending, 31_000), vec!["b".to_string()]);
    assert_eq!(deadline(&pending), Some(35_000));
    assert_eq!(expire(&mut pending, 100_000), vec!["a".to_string()]);
    assert_eq!(deadline(&pending), None);
}

#[test]
fn parts_concatenate_in_order() {
    assert_eq!(concat_parts(&vec!["a".to_string(), "".to_string(), "bc".to_string()]), "abc");
}

#[test]
fn only_chunk_messages_are_pieces() {
    let message = |kind: Json| Json::Object(vec![("kind".to_string(), kind)]);
    assert!(is_piece(Some(&message(Json::Text("chunk".to_string())))));
    assert!(!is_piece(Some(&message(Json::Text("event".to_string())))));
    assert!(!is_piece(Some(&message(Json::Bool(true)))));
    assert!(!is_piece(Some(&Json::Null)));
    assert!(!is_piece(None));
}

#[test]
fn piece_fields_are_read_by_their_type() {
    let message = Json::Object(vec![
        ("transferId".to_string(), Json::Text("t1".to_string())),
        ("index".to_string(), Json::UInt(2)),
        ("total".to_string(), Json::Int(-1)),
        ("data".to_string(), Json::UInt(5)),
    ]);
    let fields = piece_fields(Some(&message));
    assert_eq!(fields.transfer_id.as_deref(), Some("t1"));
    assert_eq!(fields.index, Some(2));
    assert_eq!(fields.total, None);
    assert_eq!(fields.data, None);
    let none = piece_fields(None);
    assert_eq!((none.transfer_id, none.index, none.total, none.data), (None, None, None, None));
}

#[test]
fn a_failed_piece_leaves_other_chats_in_flight() {
    let mut pending = KeyedMap::new();
    accept_piece(&mut pending, "a", &piece("t", 0, 3, "x"), 0);
    accept_piece(&mut pending, "b", &piece("u", 0, 2, "y"), 0);
    assert_eq!(accept_piece(&mut pending, "a", &piece("t", 2, 3, "z"), 0), PieceStep::Failed);
    assert_eq!(pending.len(), 1);
    assert_eq!(pending.entries[0].0, "b");
    assert_eq!(pending.entries[0].1.parts, vec!["y".to_string()]);
}
