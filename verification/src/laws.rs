use vstd::prelude::*;

use crate::event::{EventType, EventView, spec_with_id};
use crate::messages::{spec_map_message, ShishaMessageView};
use crate::store::sum_amount;

verus! {

/// For every inbound message whose type string is one of the three known
/// ones, the event persisted for it (under any ingestion time and any id)
/// carries exactly the corresponding variant.
pub proof fn lemma_known_type_mapped(m: ShishaMessageView, now_micros: i64, id: i64)
    ensures
        m.kind == "upload"@ ==> spec_with_id(spec_map_message(m, now_micros), id).event_type
            == EventType::UPLOAD,
        m.kind == "buy"@ ==> spec_with_id(spec_map_message(m, now_micros), id).event_type
            == EventType::BUY,
        m.kind == "transfer"@ ==> spec_with_id(spec_map_message(m, now_micros), id).event_type
            == EventType::TRANSFER,
{
    reveal_strlit("upload");
    reveal_strlit("buy");
    reveal_strlit("transfer");
    assert("upload"@.len() == 6);
    assert("buy"@.len() == 3);
    assert("transfer"@.len() == 8);
}

/// For every inbound message whose type string is none of the three known
/// ones, the event persisted for it carries the default variant `UPLOAD`;
/// such a message is defaulted, never rejected, so it is still persisted
/// (which `Consumer::step` states for every well-formed message).
pub proof fn lemma_unknown_type_defaults(m: ShishaMessageView, now_micros: i64, id: i64)
    requires
        m.kind != "upload"@,
        m.kind != "buy"@,
        m.kind != "transfer"@,
    ensures
        spec_with_id(spec_map_message(m, now_micros), id).event_type == EventType::UPLOAD,
{
}

/// Over a history without a single event of type `t`, the amount sum for
/// `t` is 0 — a value, not an absent one.
pub proof fn lemma_sum_amount_no_matches(s: Seq<EventView>, t: EventType)
    requires
        forall|k: int| 0 <= k < s.len() ==> s[k].event_type != t,
    ensures
        sum_amount(s, t) == 0,
    decreases s.len(),
{
    if s.len() > 0 {
        lemma_sum_amount_no_matches(s.drop_last(), t);
    }
}

} // verus!
