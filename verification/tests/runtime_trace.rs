use ghostex_desktop::runtime_trace::{
    endpoint_name, first_callback, first_type_value, handler_entry_name, identifier,
    message_type, runtime_entry_name,
};
use ghostex_desktop::text::{same_text, trim_text, utf16_len};

#[test]
fn identifiers_are_short_code_names() {
    assert_eq!(identifier("a.b-c_d9"), Some("a.b-c_d9".to_string()));
    assert_eq!(identifier("a:b"), None);
    assert_eq!(identifier(""), None);
    assert_eq!(identifier("has space"), None);
    assert_eq!(identifier("é"), None);
    assert_eq!(identifier(&"x".repeat(80)), Some("x".repeat(80)));
    assert_eq!(identifier(&"x".repeat(81)), None);
}

#[test]
fn endpoints_are_written_as_dotted_names() {
    assert_eq!(endpoint_name("/api/readSidebarHud"), "readSidebarHud");
    assert_eq!(endpoint_name("/api/a/b"), "a.b");
    assert_eq!(endpoint_name("/api/a/b?x=1/2"), "a.b");
    assert_eq!(endpoint_name("/api//api/x/"), "x");
    assert_eq!(endpoint_name("/api/api/x/"), "api.x");
    assert_eq!(endpoint_name("//x//"), "x");
    assert_eq!(endpoint_name(""), "");
}

#[test]
fn the_first_callback_is_an_on_member_with_a_capital() {
    assert_eq!(first_callback("x.on(1); bridge.onFoo_bar(2)"), Some("onFoo".to_string()));
    assert_eq!(first_callback("x.on(1)"), None);
    assert_eq!(first_callback("bridge.onA"), Some("onA".to_string()));
}

#[test]
fn the_first_type_value_is_a_plain_name() {
    assert_eq!(first_type_value(r#"{"type":"x.y","type":"z"}"#), Some("x.y".to_string()));
    assert_eq!(first_type_value(r#"{"type":"has space"}"#), None);
    assert_eq!(first_type_value(r#"{"kind":"x"}"#), None);
}

#[test]
fn scripts_are_named_by_callback_event_or_field() {
    assert_eq!(
        runtime_entry_name(r#"bridge.onSidebarCommand({"type":"selectSession"})"#),
        "onSidebarCommand:selectSession"
    );
    assert_eq!(runtime_entry_name("bridge.onSidebarCommand({})"), "onSidebarCommand");
    assert_eq!(runtime_entry_name(r#"bridge.onOther({"type":"x"})"#), "onOther");
    assert_eq!(
        runtime_entry_name("window.dispatchEvent(new CustomEvent('ghostex-ready'))"),
        "event:ghostex-ready"
    );
    assert_eq!(runtime_entry_name("window.ghostexGpui.sidebarWidth = 3"), "set:sidebarWidth");
    assert_eq!(runtime_entry_name("let x = 1;"), "script");
}

#[test]
fn handler_and_posted_names_fall_back_when_not_code_names() {
    assert_eq!(handler_entry_name(Some("handleSidebarMessage:focus")), "handleSidebarMessage:focus");
    assert_eq!(handler_entry_name(Some("a b")), "handleSidebarMessage:untyped");
    assert_eq!(handler_entry_name(None), "handleSidebarMessage:untyped");
    assert_eq!(message_type(Some("openSettings")), "openSettings");
    assert_eq!(message_type(Some("")), "untyped");
    assert_eq!(message_type(None), "untyped");
}

#[test]
fn text_helpers_count_compare_and_trim() {
    assert_eq!(utf16_len("a\u{1F600}é"), 4);
    assert!(same_text("abc", "abc"));
    assert!(!same_text("abc", "abd"));
    assert_eq!(trim_text("  \t x y \n"), "x y");
    assert_eq!(trim_text("   "), "");
}
