//! Inbound text frames carry JSON-like payloads; routing reads at most four
//! string fields of them: `type`, `connectionId`, `role` and `target_id`.
//!
//! The JSON parsing itself is done by `serde_json` behind a trusted wrapper
//! whose result is named by uninterpreted spec functions, one per field
//! lookup. Everything downstream of the extraction — turning the fields into
//! an explicit routing command — is verified.

use vstd::prelude::*;

verus! {

/// The routing-relevant string fields of an inbound text frame. A `None`
/// field was absent, was not a JSON string, or the whole text failed to parse
/// as JSON.
pub struct RoutingFields {
    pub type_tag: Option<String>,
    pub connection_id: Option<String>,
    pub role: Option<String>,
    pub target_id: Option<String>,
}

/// The string under the key `"type"` of the text's top-level JSON object, if
/// the text parses and that field is a string. Names the result of
/// `serde_json`'s parse followed by the `"type"` field lookup.
pub uninterp spec fn json_type_of(s: Seq<char>) -> Option<Seq<char>>;

/// As [`json_type_of`], for the key `"connectionId"`.
pub uninterp spec fn json_connection_id_of(s: Seq<char>) -> Option<Seq<char>>;

/// As [`json_type_of`], for the key `"role"`.
pub uninterp spec fn json_role_of(s: Seq<char>) -> Option<Seq<char>>;

/// As [`json_type_of`], for the key `"target_id"`.
pub uninterp spec fn json_target_id_of(s: Seq<char>) -> Option<Seq<char>>;

/// View of an optional owned string as an optional character sequence.
pub open spec fn opt_view(o: Option<String>) -> Option<Seq<char>> {
    match o {
        Some(s) => Some(s@),
        None => None,
    }
}

/// Relies on `serde_json::from_str`, `serde_json::Value::get` and
/// `serde_json::Value::as_str`: parses the text as JSON and pulls out the
/// four string fields that routing reads. Each field of the result is named
/// by the matching `json_..._of` spec function; the fields depend on the text
/// alone.
#[verifier::external_body]
fn extract_routing_fields(text: &str) -> (r: RoutingFields)
    ensures
        opt_view(r.type_tag) == json_type_of(text@),
        opt_view(r.connection_id) == json_connection_id_of(text@),
        opt_view(r.role) == json_role_of(text@),
        opt_view(r.target_id) == json_target_id_of(text@),
{
    let v: serde_json::Value = match serde_json::from_str(text) {
        Ok(v) => v,
        Err(_) => {
            return RoutingFields { type_tag: None, connection_id: None, role: None, target_id: None };
        },
    };
    RoutingFields {
        type_tag: v.get("type").and_then(|f| f.as_str()).map(|s| s.to_string()),
        connection_id: v.get("connectionId").and_then(|f| f.as_str()).map(|s| s.to_string()),
        role: v.get("role").and_then(|f| f.as_str()).map(|s| s.to_string()),
        target_id: v.get("target_id").and_then(|f| f.as_str()).map(|s| s.to_string()),
    }
}

/// Relies on `str`'s `==` (`str::eq`): two string slices compare equal
/// exactly when they hold the same characters.
#[verifier::external_body]
pub(crate) fn str_eq(a: &str, b: &str) -> (r: bool)
    ensures
        r == (a@ == b@),
{
    a == b
}

/// What a text frame asks the router to do, as an explicit tagged command:
/// the parse fails closed, so anything unrecognized or malformed becomes
/// [`TextCommand::Ignore`].
#[derive(Debug, PartialEq)]
pub enum TextCommand {
    /// `type == "register"` with both `connectionId` and `role` present.
    Register { connection_id: String, role: String },
    /// Any other text with a `target_id` field (`file_info` or generic).
    Relay { target_id: String },
    /// Everything else: the frame is ignored and the connection stays open.
    Ignore,
}

/// Mathematical image of a [`TextCommand`].
pub enum TextCommandView {
    Register { connection_id: Seq<char>, role: Seq<char> },
    Relay { target_id: Seq<char> },
    Ignore,
}

impl View for TextCommand {
    type V = TextCommandView;

    open spec fn view(&self) -> TextCommandView {
        match self {
            TextCommand::Register { connection_id, role } => TextCommandView::Register {
                connection_id: connection_id@,
                role: role@,
            },
            TextCommand::Relay { target_id } => TextCommandView::Relay { target_id: target_id@ },
            TextCommand::Ignore => TextCommandView::Ignore,
        }
    }
}

/// The routing command determined by the four extracted fields.
///
/// A `register` frame missing `connectionId` or `role` is ignored outright:
/// it never falls through to the relay path, even if it carries a
/// `target_id`. A `file_info` frame and a generic frame with a `target_id`
/// ask for the same relay, so they share one command.
pub open spec fn classify_spec(
    ty: Option<Seq<char>>,
    cid: Option<Seq<char>>,
    role: Option<Seq<char>>,
    tid: Option<Seq<char>>,
) -> TextCommandView {
    if ty == Some("register"@) {
        match (cid, role) {
            (Some(c), Some(r)) => TextCommandView::Register { connection_id: c, role: r },
            _ => TextCommandView::Ignore,
        }
    } else {
        match tid {
            Some(t) => TextCommandView::Relay { target_id: t },
            None => TextCommandView::Ignore,
        }
    }
}

/// The routing command of a whole text frame, through the named field
/// lookups.
pub open spec fn classify_view_of(t: Seq<char>) -> TextCommandView {
    classify_spec(json_type_of(t), json_connection_id_of(t), json_role_of(t), json_target_id_of(t))
}

/// Turns already-extracted fields into the routing command; exact on every
/// input.
pub fn classify_fields(f: RoutingFields) -> (c: TextCommand)
    ensures
        c@ == classify_spec(
            opt_view(f.type_tag),
            opt_view(f.connection_id),
            opt_view(f.role),
            opt_view(f.target_id),
        ),
{
    match f.type_tag {
        Some(ty) => {
            if str_eq(ty.as_str(), "register") {
                match (f.connection_id, f.role) {
                    (Some(c), Some(r)) => TextCommand::Register { connection_id: c, role: r },
                    _ => TextCommand::Ignore,
                }
            } else {
                match f.target_id {
                    Some(t) => TextCommand::Relay { target_id: t },
                    None => TextCommand::Ignore,
                }
            }
        },
        None => {
            match f.target_id {
                Some(t) => TextCommand::Relay { target_id: t },
                None => TextCommand::Ignore,
            }
        },
    }
}

/// Parses a text frame and classifies it in one step.
pub fn classify_text(text: &str) -> (c: TextCommand)
    ensures
        c@ == classify_view_of(text@),
{
    classify_fields(extract_routing_fields(text))
}

} // verus!
