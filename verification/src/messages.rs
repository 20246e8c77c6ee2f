use vstd::prelude::*;

use crate::event::{EventType, NewEvent, NewEventView};

verus! {

/// Connection settings for the message log the consumer subscribes to.
pub struct ListenerConfig {
    pub boostrap_servers: String,
    pub topic: String,
}

/// The structured shape of one inbound message, as the wire format defines
/// it: `user` and `kind` (the wire field "type") are required, the rest may
/// be absent or null. Unknown extra fields are ignored.
pub struct ShishaMessage {
    pub user: String,
    pub kind: String,
    pub image_uuid: Option<String>,
    pub target: Option<String>,
    pub amount: Option<i64>,
}

/// Mathematical model of an inbound message.
pub ghost struct ShishaMessageView {
    pub user: Seq<char>,
    pub kind: Seq<char>,
    pub image_uuid: Option<Seq<char>>,
    pub target: Option<Seq<char>>,
    pub amount: Option<i64>,
}

impl View for ShishaMessage {
    type V = ShishaMessageView;

    open spec fn view(&self) -> ShishaMessageView {
        ShishaMessageView {
            user: self.user@,
            kind: self.kind@,
            image_uuid: crate::event::opt_str_view(self.image_uuid),
            target: crate::event::opt_str_view(self.target),
            amount: self.amount,
        }
    }
}

/// Why a payload was rejected: it could not be parsed into the structured
/// message shape. An unknown type string is not an error (it is defaulted),
/// so this is the only rejection the mapper knows.
#[derive(Clone, Copy, Debug, PartialEq, Eq, Structural)]
pub enum MappingError {
    Malformed,
}

/// The mapper's type policy: an exact, case-sensitive match against the three
/// known strings; everything else defaults to `UPLOAD` rather than being
/// rejected.
pub open spec fn type_of(kind: Seq<char>) -> EventType {
    if kind == "upload"@ {
        EventType::UPLOAD
    } else if kind == "buy"@ {
        EventType::BUY
    } else if kind == "transfer"@ {
        EventType::TRANSFER
    } else {
        EventType::UPLOAD
    }
}

/// Folds an inbound type string into the closed event-type set.
pub fn convert_to_type(message_type: &str) -> (t: EventType)
    ensures
        t == type_of(message_type@),
{
    let s = message_type.to_owned();
    if s == "upload".to_owned() {
        EventType::UPLOAD
    } else if s == "buy".to_owned() {
        EventType::BUY
    } else if s == "transfer".to_owned() {
        EventType::TRANSFER
    } else {
        EventType::UPLOAD
    }
}

#[verifier::external_type_specification]
#[verifier::external_body]
pub struct ExValue(serde_json::Value);

/// The names of the top-level fields of a parsed JSON document; empty when
/// the document is not an object.
pub uninterp spec fn json_keys(v: serde_json::Value) -> Set<Seq<char>>;

/// The top-level fields of a parsed JSON document whose value is a JSON
/// string, each with that string; empty when the document is not an object.
pub uninterp spec fn json_str_fields(v: serde_json::Value) -> Map<Seq<char>, Seq<char>>;

/// The top-level fields of a parsed JSON document whose value is a JSON
/// number representable as an `i64`, each with that number.
pub uninterp spec fn json_int_fields(v: serde_json::Value) -> Map<Seq<char>, i64>;

/// The top-level fields of a parsed JSON document whose value is JSON null.
pub uninterp spec fn json_null_fields(v: serde_json::Value) -> Set<Seq<char>>;

/// What parsing a payload as JSON yields, as far as the mapper reads it:
/// `None` when the bytes are not valid JSON, otherwise the document's field
/// names, string fields, integer fields and null fields. Parsing is a
/// function of the bytes alone.
pub uninterp spec fn parsed_doc(payload: Seq<u8>) -> Option<(
    Set<Seq<char>>,
    Map<Seq<char>, Seq<char>>,
    Map<Seq<char>, i64>,
    Set<Seq<char>>,
)>;

/// Relies on serde_json::from_slice::<Value>: whether the bytes parse as
/// JSON, and the document they parse to, depend on the bytes alone.
#[verifier::external_body]
fn parse_json(payload: &[u8]) -> (r: Option<serde_json::Value>)
    ensures
        match r {
            Some(v) => parsed_doc(payload@) == Some(
                (json_keys(v), json_str_fields(v), json_int_fields(v), json_null_fields(v)),
            ),
            None => parsed_doc(payload@) is None,
        },
{
    serde_json::from_slice(payload).ok()
}

/// Relies on serde_json::Value::get: whether the document holds a top-level
/// field of that name.
#[verifier::external_body]
fn has_field(v: &serde_json::Value, name: &str) -> (r: bool)
    ensures
        r == json_keys(*v).contains(name@),
{
    v.get(name).is_some()
}

/// Relies on serde_json::Value::get and Value::is_null: whether the named
/// field is present and JSON null.
#[verifier::external_body]
fn is_null_field(v: &serde_json::Value, name: &str) -> (r: bool)
    ensures
        r == json_null_fields(*v).contains(name@),
{
    match v.get(name) {
        Some(f) => f.is_null(),
        None => false,
    }
}

/// Relies on serde_json::Value::get and Value::as_str: the value of the named
/// field when the document holds it as a JSON string.
#[verifier::external_body]
fn get_str_field(v: &serde_json::Value, name: &str) -> (r: Option<String>)
    ensures
        match r {
            Some(s) => json_str_fields(*v).contains_key(name@) && s@ == json_str_fields(
                *v,
            )[name@],
            None => !json_str_fields(*v).contains_key(name@),
        },
{
    match v.get(name) {
        Some(f) => match f.as_str() {
            Some(s) => Some(s.to_owned()),
            None => None,
        },
        None => None,
    }
}

/// Relies on serde_json::Value::get and Value::as_i64: the value of the named
/// field when the document holds it as an integer that fits an `i64`.
#[verifier::external_body]
fn get_int_field(v: &serde_json::Value, name: &str) -> (r: Option<i64>)
    ensures
        match r {
            Some(n) => json_int_fields(*v).contains_key(name@) && n == json_int_fields(
                *v,
            )[name@],
            None => !json_int_fields(*v).contains_key(name@),
        },
{
    match v.get(name) {
        Some(f) => f.as_i64(),
        None => None,
    }
}

/// How one optional string field of the wire format reads from a parsed
/// document: a string gives its value, an absent or null field gives nothing,
/// and a field of any other shape makes the whole payload malformed (`None`).
pub open spec fn spec_opt_str_field(
    keys: Set<Seq<char>>,
    strs: Map<Seq<char>, Seq<char>>,
    nulls: Set<Seq<char>>,
    name: Seq<char>,
) -> Option<Option<Seq<char>>> {
    if strs.contains_key(name) {
        Some(Some(strs[name]))
    } else if keys.contains(name) && !nulls.contains(name) {
        None
    } else {
        Some(None)
    }
}

/// How the optional integer field reads: as `spec_opt_str_field`, with an
/// `i64` value in place of a string.
pub open spec fn spec_opt_int_field(
    keys: Set<Seq<char>>,
    ints: Map<Seq<char>, i64>,
    nulls: Set<Seq<char>>,
    name: Seq<char>,
) -> Option<Option<i64>> {
    if ints.contains_key(name) {
        Some(Some(ints[name]))
    } else if keys.contains(name) && !nulls.contains(name) {
        None
    } else {
        Some(None)
    }
}

/// The structured message a parsed payload carries, or `None` when the
/// payload does not fit the wire shape: `user` and `type` must be string
/// fields; `image_uuid`, `target` and `amount` may be absent or null but are
/// otherwise held to their declared shape.
pub open spec fn message_of(
    doc: Option<(Set<Seq<char>>, Map<Seq<char>, Seq<char>>, Map<Seq<char>, i64>, Set<Seq<char>>)>,
) -> Option<ShishaMessageView> {
    match doc {
        None => None,
        Some(d) => {
            if !d.1.contains_key("user"@) || !d.1.contains_key("type"@) {
                None
            } else {
                match (
                    spec_opt_str_field(d.0, d.1, d.3, "image_uuid"@),
                    spec_opt_str_field(d.0, d.1, d.3, "target"@),
                    spec_opt_int_field(d.0, d.2, d.3, "amount"@),
                ) {
                    (Some(image_uuid), Some(target), Some(amount)) => Some(
                        ShishaMessageView {
                            user: d.1["user"@],
                            kind: d.1["type"@],
                            image_uuid,
                            target,
                            amount,
                        },
                    ),
                    _ => None,
                }
            }
        },
    }
}

/// Deserializes a payload into the structured message shape, failing with
/// `Malformed` exactly when the payload does not fit it.
pub fn parse_message(payload: &[u8]) -> (r: Result<ShishaMessage, MappingError>)
    ensures
        match r {
            Ok(m) => message_of(parsed_doc(payload@)) == Some(m@),
            Err(e) => e == MappingError::Malformed && message_of(parsed_doc(payload@)) is None,
        },
{
    let v = match parse_json(payload) {
        Some(v) => v,
        None => {
            return Err(MappingError::Malformed);
        },
    };
    let user = match get_str_field(&v, "user") {
        Some(s) => s,
        None => {
            return Err(MappingError::Malformed);
        },
    };
    let kind = match get_str_field(&v, "type") {
        Some(s) => s,
        None => {
            return Err(MappingError::Malformed);
        },
    };
    let image_uuid = match get_str_field(&v, "image_uuid") {
        Some(s) => Some(s),
        None => {
            if has_field(&v, "image_uuid") && !is_null_field(&v, "image_uuid") {
                return Err(MappingError::Malformed);
            }
            None
        },
    };
    let target = match get_str_field(&v, "target") {
        Some(s) => Some(s),
        None => {
            if has_field(&v, "target") && !is_null_field(&v, "target") {
                return Err(MappingError::Malformed);
            }
            None
        },
    };
    let amount = match get_int_field(&v, "amount") {
        Some(n) => Some(n),
        None => {
            if has_field(&v, "amount") && !is_null_field(&v, "amount") {
                return Err(MappingError::Malformed);
            }
            None
        },
    };
    Ok(ShishaMessage { user, kind, image_uuid, target, amount })
}

/// The event a validated message maps to: the fields carry over, the type
/// string is folded into the closed set, and the event is stamped with the
/// ingestion time, never with a time from the payload.
pub open spec fn spec_map_message(m: ShishaMessageView, now_micros: i64) -> NewEventView {
    NewEventView {
        actor: m.user,
        event_type: type_of(m.kind),
        event_date: now_micros,
        image: m.image_uuid,
        amount: m.amount,
        target: m.target,
    }
}

/// Maps a validated message to the event to persist, stamped `now_micros`.
pub fn map_message(message: ShishaMessage, now_micros: i64) -> (e: NewEvent)
    ensures
        e@ == spec_map_message(message@, now_micros),
{
    let event_type = convert_to_type(message.kind.as_str());
    NewEvent {
        actor: message.user,
        event_type,
        event_date: now_micros,
        image: message.image_uuid,
        amount: message.amount,
        target: message.target,
    }
}

/// The whole mapper: payload bytes to the event to persist, stamped
/// `now_micros`, or `Malformed` exactly when the payload does not fit the
/// wire shape.
pub fn map_payload(payload: &[u8], now_micros: i64) -> (r: Result<NewEvent, MappingError>)
    ensures
        match r {
            Ok(e) => message_of(parsed_doc(payload@)) matches Some(m) && e@ == spec_map_message(
                m,
                now_micros,
            ),
            Err(e) => e == MappingError::Malformed && message_of(parsed_doc(payload@)) is None,
        },
{
    match parse_message(payload) {
        Ok(m) => Ok(map_message(m, now_micros)),
        Err(e) => Err(e),
    }
}

/// Relies on chrono::Utc::now and DateTime::timestamp_micros: the current UTC
/// time as microseconds since the Unix epoch. Nothing is promised of the
/// clock's reading.
#[verifier::external_body]
pub(crate) fn now_micros() -> i64 {
    chrono::Utc::now().timestamp_micros()
}

} // verus!
