use investown_admin::attachment::{AttachmentAction, AttachmentEntry};
use investown_admin::drag::{
    decode_payload, encode_position, file_count, is_move_transfer, parse_position,
    DragPayload, EntryDrag, FileDropZone, HoverCounter, TransferItem, MOVE_PAYLOAD_TYPE,
};
use investown_admin::search::same_text;
use investown_admin::preview::{data_url, media_url, preview_source};

fn item(kind: &str, item_type: &str) -> TransferItem {
    TransferItem { kind: kind.to_string(), item_type: item_type.to_string() }
}

fn move_items() -> Vec<TransferItem> {
    vec![item("string", MOVE_PAYLOAD_TYPE)]
}

#[test]
fn hover_counter_saturates_at_zero() {
    let mut h = HoverCounter::new();
    h.leave();
    assert_eq!(h.count(), 0);
    h.enter();
    h.enter();
    h.leave();
    assert!(h.is_hovered());
    h.leave();
    assert!(!h.is_hovered());
    h.enter();
    h.reset();
    assert_eq!(h.count(), 0);
}

#[test]
fn positions_round_trip() {
    assert_eq!(encode_position(305), "305");
    assert_eq!(encode_position(0), "0");
    assert_eq!(parse_position("305"), Some(305));
    assert_eq!(parse_position(&encode_position(usize::MAX)), Some(usize::MAX));
    assert_eq!(parse_position(""), None);
    assert_eq!(parse_position("1a"), None);
    assert_eq!(parse_position("-1"), None);
    assert_eq!(parse_position("99999999999999999999999999"), None);
}

#[test]
fn transfer_classification() {
    assert!(is_move_transfer(&move_items()));
    assert!(!is_move_transfer(&vec![item("string", "text/cost")]));
    assert!(!is_move_transfer(&vec![item("file", MOVE_PAYLOAD_TYPE)]));
    assert!(!is_move_transfer(&vec![]));
    assert_eq!(file_count(&vec![item("file", "image/jpeg"), item("string", "x"), item("file", "")]), Some(2));
    assert_eq!(file_count(&vec![item("string", "x")]), None);
    assert_eq!(file_count(&vec![]), None);
    assert!(same_text("abc", "abc"));
    assert!(!same_text("abc", "abd"));
}

#[test]
fn drop_moves_entry() {
    let mut d = EntryDrag::new();
    d.enter(&move_items());
    d.enter(&move_items());
    d.leave(&move_items());
    assert!(d.highlighted());
    let payload = decode_payload(&move_items(), "0");
    assert_eq!(payload, DragPayload::AttachmentMove(0));
    match d.drop_on(payload, 1) {
        Some(AttachmentAction::Move(0, 1)) => {}
        other => panic!("unexpected {other:?}"),
    }
    assert_eq!(d.hover.count(), 0);
}

#[test]
fn foreign_drop_ignored() {
    let mut d = EntryDrag::new();
    d.enter(&move_items());
    let foreign = vec![item("string", "text/cost")];
    d.enter(&foreign);
    assert_eq!(d.hover.count(), 1);
    let before = d;
    let payload = decode_payload(&foreign, "3");
    assert_eq!(payload, DragPayload::Foreign);
    assert!(d.drop_on(payload, 0).is_none());
    assert_eq!(d, before);
    assert_eq!(decode_payload(&move_items(), "x"), DragPayload::Foreign);
}

#[test]
fn drag_source_marks_and_clears() {
    let mut d = EntryDrag::new();
    let data = d.start(4);
    assert_eq!(data, "4");
    assert!(d.being_dragged);
    d.enter(&move_items());
    assert!(!d.highlighted());
    d.end();
    assert!(!d.being_dragged);
    assert!(d.highlighted());
}

#[test]
fn file_zone_counts_file_drags() {
    let mut z = FileDropZone::new();
    z.enter(&vec![item("file", "image/jpeg")]);
    z.enter(&move_items());
    assert_eq!(z.hover.count(), 1);
    assert!(z.highlighted());
    z.drop_files();
    assert!(!z.highlighted());
}

#[test]
fn preview_sources() {
    let mut e = AttachmentEntry::new(1, "a.jpg".to_string(), "image/jpeg".to_string());
    assert_eq!(preview_source(&e), None);
    e.bytes = Some(b"abc".to_vec());
    assert_eq!(preview_source(&e), Some("data:image/jpeg;base64,YWJj".to_string()));
    e.remote_path = Some("pics/a.jpg".to_string());
    assert_eq!(preview_source(&e), Some("http://127.0.0.1:8081/pics/a_thumb.jpg".to_string()));
    assert_eq!(data_url("image/png", "AA=="), "data:image/png;base64,AA==");
    assert_eq!(media_url("x"), "http://127.0.0.1:8081/x");
}
