//! The events that the events contract emits: each entry point yields the list of events,
//! in order, that it publishes.
use vstd::prelude::*;

use crate::address::Addr;

verus! {

/// A status carried in status-change events.
#[derive(PartialEq, Eq, Structural, Debug, Clone, Copy)]
pub enum Status {
    Active,
    Paused,
    Stopped,
}

/// Structured transfer data.
pub struct TransferData {
    pub from: Addr,
    pub to: Addr,
    pub amount: i128,
}

/// One topic of an event: a symbol or an address.
pub enum Topic {
    Sym(String),
    Address(Addr),
}

/// The data an event carries.
pub enum EventData {
    Unit,
    I128(i128),
    Address(Addr),
    Text(String),
    Bool(bool),
    U64(u64),
    U32(u32),
    Transfer(TransferData),
    StatusChange(Status, Status),
    UserValues(Addr, i128, i128),
    TransferTuple(Addr, Addr, i128),
    I128List(Vec<i128>),
}

/// An event: its topics and its data.
pub struct Event {
    pub topics: Vec<Topic>,
    pub data: EventData,
}

/// A topic as plain values.
pub enum TopicView {
    Sym(Seq<char>),
    Address(Seq<char>),
}

/// Event data as plain values.
pub enum DataView {
    Unit,
    I128(i128),
    Address(Seq<char>),
    Text(Seq<char>),
    Bool(bool),
    U64(u64),
    U32(u32),
    Transfer(Seq<char>, Seq<char>, i128),
    StatusChange(Status, Status),
    UserValues(Seq<char>, i128, i128),
    TransferTuple(Seq<char>, Seq<char>, i128),
    I128List(Seq<i128>),
}

/// An event as plain values.
pub struct EventView {
    pub topics: Seq<TopicView>,
    pub data: DataView,
}

impl View for Topic {
    type V = TopicView;

    open spec fn view(&self) -> TopicView {
        match self {
            Topic::Sym(s) => TopicView::Sym(s@),
            Topic::Address(a) => TopicView::Address(a@),
        }
    }
}

impl View for EventData {
    type V = DataView;

    open spec fn view(&self) -> DataView {
        match self {
            EventData::Unit => DataView::Unit,
            EventData::I128(v) => DataView::I128(*v),
            EventData::Address(a) => DataView::Address(a@),
            EventData::Text(s) => DataView::Text(s@),
            EventData::Bool(b) => DataView::Bool(*b),
            EventData::U64(v) => DataView::U64(*v),
            EventData::U32(v) => DataView::U32(*v),
            EventData::Transfer(d) => DataView::Transfer(d.from@, d.to@, d.amount),
            EventData::StatusChange(a, b) => DataView::StatusChange(*a, *b),
            EventData::UserValues(a, x, y) => DataView::UserValues(a@, *x, *y),
            EventData::TransferTuple(a, b, x) => DataView::TransferTuple(a@, b@, *x),
            EventData::I128List(v) => DataView::I128List(v@),
        }
    }
}

impl View for Event {
    type V = EventView;

    open spec fn view(&self) -> EventView {
        EventView { topics: self.topics@.map_values(|t: Topic| t@), data: self.data@ }
    }
}

/// The views of a list of events.
pub open spec fn events_view(s: Seq<Event>) -> Seq<EventView> {
    s.map_values(|e: Event| e@)
}

/// The event with the symbol topic `name` and the data `data`.
pub open spec fn sym_event(name: Seq<char>, data: DataView) -> EventView {
    EventView { topics: seq![TopicView::Sym(name)], data }
}

fn sym(name: &str) -> (t: Topic)
    ensures
        t@ == TopicView::Sym(name@),
{
    Topic::Sym(name.to_owned())
}

fn single(topics: Vec<Topic>, data: EventData) -> (r: Vec<Event>)
    ensures
        events_view(r@) == seq![EventView { topics: topics@.map_values(|t: Topic| t@), data: data@ }],
{
    let mut r: Vec<Event> = Vec::new();
    let e = Event { topics, data };
    r.push(e);
    assert(events_view(r@) =~= seq![e@]);
    r
}

fn one_topic(t: Topic) -> (r: Vec<Topic>)
    ensures
        r@.map_values(|x: Topic| x@) == seq![t@],
{
    let mut r: Vec<Topic> = Vec::new();
    r.push(t);
    assert(r@.map_values(|x: Topic| x@) =~= seq![t@]);
    r
}

fn three_topics(a: Topic, b: Topic, c: Topic) -> (r: Vec<Topic>)
    ensures
        r@.map_values(|x: Topic| x@) == seq![a@, b@, c@],
{
    let mut r: Vec<Topic> = Vec::new();
    r.push(a);
    r.push(b);
    r.push(c);
    assert(r@.map_values(|x: Topic| x@) =~= seq![a@, b@, c@]);
    r
}

/// The events contract; it keeps no state.
pub struct EventsContract;

impl EventsContract {
    /// `SIMPLE` with no data.
    pub fn emit_simple() -> (r: Vec<Event>)
        ensures
            events_view(r@) == seq![sym_event("SIMPLE"@, DataView::Unit)],
    {
        single(one_topic(sym("SIMPLE")), EventData::Unit)
    }

    /// `VALUE` with `value`.
    pub fn emit_with_value(value: i128) -> (r: Vec<Event>)
        ensures
            events_view(r@) == seq![sym_event("VALUE"@, DataView::I128(value))],
    {
        single(one_topic(sym("VALUE")), EventData::I128(value))
    }

    /// `ADDRESS` with `address`.
    pub fn emit_with_address(address: Addr) -> (r: Vec<Event>)
        ensures
            events_view(r@) == seq![sym_event("ADDRESS"@, DataView::Address(address@))],
    {
        single(one_topic(sym("ADDRESS")), EventData::Address(address))
    }

    /// Topics `TRANSFER`, `from`, `to`; data `amount`.
    pub fn emit_transfer(from: Addr, to: Addr, amount: i128) -> (r: Vec<Event>)
        ensures
            events_view(r@) == seq![
                EventView {
                    topics: seq![TopicView::Sym("TRANSFER"@), TopicView::Address(from@), TopicView::Address(to@)],
                    data: DataView::I128(amount),
                },
            ],
    {
        single(three_topics(sym("TRANSFER"), Topic::Address(from), Topic::Address(to)), EventData::I128(amount))
    }

    /// Topics `APPROVAL`, `owner`, `spender`; data `amount`.
    pub fn emit_approval(owner: Addr, spender: Addr, amount: i128) -> (r: Vec<Event>)
        ensures
            events_view(r@) == seq![
                EventView {
                    topics: seq![TopicView::Sym("APPROVAL"@), TopicView::Address(owner@), TopicView::Address(spender@)],
                    data: DataView::I128(amount),
                },
            ],
    {
        single(
            three_topics(sym("APPROVAL"), Topic::Address(owner), Topic::Address(spender)),
            EventData::I128(amount),
        )
    }

    /// `TRANSFER` with the structured transfer data.
    pub fn emit_transfer_data(from: Addr, to: Addr, amount: i128) -> (r: Vec<Event>)
        ensures
            events_view(r@) == seq![sym_event("TRANSFER"@, DataView::Transfer(from@, to@, amount))],
    {
        single(one_topic(sym("TRANSFER")), EventData::Transfer(TransferData { from, to, amount }))
    }

    /// `STATUS` with the old and the new status.
    pub fn emit_status_change(old_status: Status, new_status: Status) -> (r: Vec<Event>)
        ensures
            events_view(r@) == seq![sym_event("STATUS"@, DataView::StatusChange(old_status, new_status))],
    {
        single(one_topic(sym("STATUS")), EventData::StatusChange(old_status, new_status))
    }

    /// `MESSAGE` with `message`.
    pub fn emit_with_string(message: String) -> (r: Vec<Event>)
        ensures
            events_view(r@) == seq![sym_event("MESSAGE"@, DataView::Text(message@))],
    {
        single(one_topic(sym("MESSAGE")), EventData::Text(message))
    }

    /// `TUPLE` with `(user, value1, value2)`.
    pub fn emit_with_tuple(user: Addr, value1: i128, value2: i128) -> (r: Vec<Event>)
        ensures
            events_view(r@) == seq![sym_event("TUPLE"@, DataView::UserValues(user@, value1, value2))],
    {
        single(one_topic(sym("TUPLE")), EventData::UserValues(user, value1, value2))
    }

    /// `VECTOR` with `values`.
    pub fn emit_with_vec(values: Vec<i128>) -> (r: Vec<Event>)
        ensures
            events_view(r@) == seq![sym_event("VECTOR"@, DataView::I128List(values@))],
    {
        single(one_topic(sym("VECTOR")), EventData::I128List(values))
    }

    /// Three events in order: `START` with `user`, `PROCESS` with `amount`, and topics
    /// `COMPLETE`, `user` with `amount`.
    pub fn emit_multiple(user: Addr, amount: i128) -> (r: Vec<Event>)
        ensures
            events_view(r@) == seq![
                sym_event("START"@, DataView::Address(user@)),
                sym_event("PROCESS"@, DataView::I128(amount)),
                EventView {
                    topics: seq![TopicView::Sym("COMPLETE"@), TopicView::Address(user@)],
                    data: DataView::I128(amount),
                },
            ],
    {
        let mut r: Vec<Event> = Vec::new();
        let e1 = Event { topics: one_topic(sym("START")), data: EventData::Address(user.clone()) };
        let e2 = Event { topics: one_topic(sym("PROCESS")), data: EventData::I128(amount) };
        let mut t3: Vec<Topic> = Vec::new();
        t3.push(sym("COMPLETE"));
        t3.push(Topic::Address(user));
        let e3 = Event { topics: t3, data: EventData::I128(amount) };
        proof {
            assert(e3.topics@.map_values(|x: Topic| x@) =~= seq![
                TopicView::Sym("COMPLETE"@),
                TopicView::Address(user@),
            ]);
        }
        r.push(e1);
        r.push(e2);
        r.push(e3);
        assert(events_view(r@) =~= seq![e1@, e2@, e3@]);
        r
    }

    /// Topics `MULTI`, `topic1`, `topic2`; data `value`.
    pub fn emit_multi_topic(topic1: String, topic2: String, value: i128) -> (r: Vec<Event>)
        ensures
            events_view(r@) == seq![
                EventView {
                    topics: seq![TopicView::Sym("MULTI"@), TopicView::Sym(topic1@), TopicView::Sym(topic2@)],
                    data: DataView::I128(value),
                },
            ],
    {
        single(three_topics(sym("MULTI"), Topic::Sym(topic1), Topic::Sym(topic2)), EventData::I128(value))
    }

    /// `FLAG` with `flag`.
    pub fn emit_with_bool(flag: bool) -> (r: Vec<Event>)
        ensures
            events_view(r@) == seq![sym_event("FLAG"@, DataView::Bool(flag))],
    {
        single(one_topic(sym("FLAG")), EventData::Bool(flag))
    }

    /// `TIME` with `timestamp`.
    pub fn emit_with_u64(timestamp: u64) -> (r: Vec<Event>)
        ensures
            events_view(r@) == seq![sym_event("TIME"@, DataView::U64(timestamp))],
    {
        single(one_topic(sym("TIME")), EventData::U64(timestamp))
    }

    /// `COUNT` with `count`.
    pub fn emit_with_u32(count: u32) -> (r: Vec<Event>)
        ensures
            events_view(r@) == seq![sym_event("COUNT"@, DataView::U32(count))],
    {
        single(one_topic(sym("COUNT")), EventData::U32(count))
    }

    /// The events of a transfer: `TX_START` with `(from, to, amount)`, then topics
    /// `TRANSFER`, `from`, `to` with `amount`.
    pub fn transfer_with_events(from: Addr, to: Addr, amount: i128) -> (r: Vec<Event>)
        ensures
            events_view(r@) == seq![
                sym_event("TX_START"@, DataView::TransferTuple(from@, to@, amount)),
                EventView {
                    topics: seq![TopicView::Sym("TRANSFER"@), TopicView::Address(from@), TopicView::Address(to@)],
                    data: DataView::I128(amount),
                },
            ],
    {
        let mut r: Vec<Event> = Vec::new();
        let e1 = Event {
            topics: one_topic(sym("TX_START")),
            data: EventData::TransferTuple(from.clone(), to.clone(), amount),
        };
        let e2 = Event {
            topics: three_topics(sym("TRANSFER"), Topic::Address(from), Topic::Address(to)),
            data: EventData::I128(amount),
        };
        r.push(e1);
        r.push(e2);
        assert(events_view(r@) =~= seq![e1@, e2@]);
        r
    }
}

} // verus!
