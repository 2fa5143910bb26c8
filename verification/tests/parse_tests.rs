use relay_hub::parse::{classify_text, TextCommand};

#[test]
fn register_frame_is_classified() {
    let c = classify_text("{\"type\":\"register\",\"connectionId\":\"s1\",\"role\":\"sender\"}");
    assert_eq!(
        c,
        TextCommand::Register { connection_id: "s1".to_string(), role: "sender".to_string() }
    );
}

#[test]
fn register_without_role_is_ignored() {
    let c = classify_text("{\"type\":\"register\",\"connectionId\":\"s1\"}");
    assert_eq!(c, TextCommand::Ignore);
}

#[test]
fn register_without_connection_id_is_ignored() {
    let c = classify_text("{\"type\":\"register\",\"role\":\"sender\"}");
    assert_eq!(c, TextCommand::Ignore);
}

#[test]
fn register_with_non_string_connection_id_is_ignored() {
    let c = classify_text("{\"type\":\"register\",\"connectionId\":7,\"role\":\"sender\"}");
    assert_eq!(c, TextCommand::Ignore);
}

#[test]
fn register_missing_fields_never_falls_through_to_relay() {
    // Even with a target_id present, a register frame without a role is
    // ignored rather than relayed.
    let c = classify_text("{\"type\":\"register\",\"connectionId\":\"s1\",\"target_id\":\"r1\"}");
    assert_eq!(c, TextCommand::Ignore);
}

#[test]
fn file_info_with_target_is_relay() {
    let c = classify_text("{\"type\":\"file_info\",\"target_id\":\"r1\",\"name\":\"f.bin\",\"size\":10}");
    assert_eq!(c, TextCommand::Relay { target_id: "r1".to_string() });
}

#[test]
fn file_info_without_target_is_ignored() {
    let c = classify_text("{\"type\":\"file_info\",\"name\":\"f.bin\"}");
    assert_eq!(c, TextCommand::Ignore);
}

#[test]
fn generic_frame_with_target_is_relay() {
    let c = classify_text("{\"type\":\"chat\",\"target_id\":\"r2\",\"body\":\"hi\"}");
    assert_eq!(c, TextCommand::Relay { target_id: "r2".to_string() });
}

#[test]
fn frame_without_type_but_with_target_is_relay() {
    let c = classify_text("{\"target_id\":\"r1\"}");
    assert_eq!(c, TextCommand::Relay { target_id: "r1".to_string() });
}

#[test]
fn non_string_type_with_target_is_relay() {
    let c = classify_text("{\"type\":5,\"target_id\":\"r1\"}");
    assert_eq!(c, TextCommand::Relay { target_id: "r1".to_string() });
}

#[test]
fn non_string_target_is_ignored() {
    let c = classify_text("{\"target_id\":17}");
    assert_eq!(c, TextCommand::Ignore);
}

#[test]
fn frame_with_neither_type_nor_target_is_ignored() {
    let c = classify_text("{\"hello\":\"world\"}");
    assert_eq!(c, TextCommand::Ignore);
}

#[test]
fn malformed_json_is_ignored() {
    assert_eq!(classify_text("{not json"), TextCommand::Ignore);
    assert_eq!(classify_text(""), TextCommand::Ignore);
    assert_eq!(classify_text("[1,2,3"), TextCommand::Ignore);
}

#[test]
fn non_object_json_is_ignored() {
    assert_eq!(classify_text("42"), TextCommand::Ignore);
    assert_eq!(classify_text("\"register\""), TextCommand::Ignore);
}
