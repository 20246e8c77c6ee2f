use vstd::prelude::*;

verus! {

/// The closed set of event kinds the dashboard understands. Inbound messages
/// carry a free-form type string; the mapper folds it into this set, with
/// `UPLOAD` as the lenient default for unknown strings.
#[derive(Clone, Copy, Debug, PartialEq, Eq, Structural)]
pub enum EventType {
    UPLOAD,
    BUY,
    TRANSFER,
}

/// Mathematical model of an event that is not yet persisted: everything the
/// mapper produces, before the store assigns a surrogate id.
pub ghost struct NewEventView {
    pub actor: Seq<char>,
    pub event_type: EventType,
    /// Ingestion time, microseconds since the Unix epoch (UTC).
    pub event_date: i64,
    pub image: Option<Seq<char>>,
    pub amount: Option<i64>,
    pub target: Option<Seq<char>>,
}

/// Mathematical model of one persisted event.
pub ghost struct EventView {
    pub id: i64,
    pub actor: Seq<char>,
    pub event_type: EventType,
    /// Ingestion time, microseconds since the Unix epoch (UTC).
    pub event_date: i64,
    pub image: Option<Seq<char>>,
    pub amount: Option<i64>,
    pub target: Option<Seq<char>>,
}

/// A validated event as the mapper hands it to the store: the store, not the
/// mapper, assigns the id.
#[derive(Clone, Debug)]
pub struct NewEvent {
    pub actor: String,
    pub event_type: EventType,
    /// Ingestion time, microseconds since the Unix epoch (UTC).
    pub event_date: i64,
    pub image: Option<String>,
    pub amount: Option<i64>,
    pub target: Option<String>,
}

/// A persisted event: immutable once written, identified by a surrogate id
/// that the store assigned on insert.
#[derive(Clone, Debug)]
pub struct Event {
    pub id: i64,
    pub actor: String,
    pub event_type: EventType,
    /// Ingestion time, microseconds since the Unix epoch (UTC).
    pub event_date: i64,
    pub image: Option<String>,
    pub amount: Option<i64>,
    pub target: Option<String>,
}

pub open spec fn opt_str_view(s: Option<String>) -> Option<Seq<char>> {
    match s {
        Some(x) => Some(x@),
        None => None,
    }
}

impl View for NewEvent {
    type V = NewEventView;

    open spec fn view(&self) -> NewEventView {
        NewEventView {
            actor: self.actor@,
            event_type: self.event_type,
            event_date: self.event_date,
            image: opt_str_view(self.image),
            amount: self.amount,
            target: opt_str_view(self.target),
        }
    }
}

impl View for Event {
    type V = EventView;

    open spec fn view(&self) -> EventView {
        EventView {
            id: self.id,
            actor: self.actor@,
            event_type: self.event_type,
            event_date: self.event_date,
            image: opt_str_view(self.image),
            amount: self.amount,
            target: opt_str_view(self.target),
        }
    }
}

/// The event the store persists when it assigns `id` to a mapped message.
pub open spec fn spec_with_id(e: NewEventView, id: i64) -> EventView {
    EventView {
        id,
        actor: e.actor,
        event_type: e.event_type,
        event_date: e.event_date,
        image: e.image,
        amount: e.amount,
        target: e.target,
    }
}

impl Event {
    /// A field-by-field copy whose view is known to equal the original's;
    /// the derived `Clone` says nothing about the copy in contracts.
    pub fn duplicate(&self) -> (r: Event)
        ensures
            r@ == self@,
    {
        Event {
            id: self.id,
            actor: self.actor.clone(),
            event_type: self.event_type,
            event_date: self.event_date,
            image: match &self.image {
                Some(s) => Some(s.clone()),
                None => None,
            },
            amount: self.amount,
            target: match &self.target {
                Some(s) => Some(s.clone()),
                None => None,
            },
        }
    }
}

} // verus!
