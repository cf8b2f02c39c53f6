//! What gets published: payloads, their text, and the topic a context
//! publishes under.

use crate::float::{lists_equal, same_list, Float64};
use crate::text::{decimal, joined, same_text, unsigned_text};
use crate::time::{
    rfc3339_text, span_text, TimeSpan, Timestamp, MAX_SPAN_SECONDS, NANOS_PER_SECOND, YEAR_10000,
};
use vstd::prelude::*;
use vstd::string::*;

verus! {

/// A value that is published as text.
pub trait MqttPayload {
    /// The text of the value.
    spec fn payload_text(&self) -> Seq<char>;

    /// Writes the value as it is published.
    fn to_payload(&self) -> (s: String)
        ensures
            s@ == self.payload_text(),
    ;
}

impl MqttPayload for String {
    open spec fn payload_text(&self) -> Seq<char> {
        self@
    }

    fn to_payload(&self) -> (s: String) {
        self.clone()
    }
}

impl MqttPayload for bool {
    open spec fn payload_text(&self) -> Seq<char> {
        if *self {
            "true"@
        } else {
            "false"@
        }
    }

    fn to_payload(&self) -> (s: String) {
        if *self {
            String::from_str("true")
        } else {
            String::from_str("false")
        }
    }
}

impl MqttPayload for u64 {
    open spec fn payload_text(&self) -> Seq<char> {
        decimal(*self as nat)
    }

    fn to_payload(&self) -> (s: String) {
        unsigned_text(*self)
    }
}

/// How surely a message is delivered.
#[derive(Clone, Copy, Debug, PartialEq, Eq, Structural)]
pub enum QoS {
    AtMostOnce,
    AtLeastOnce,
    ExactlyOnce,
}

/// The value of one published field.
#[derive(Debug, PartialEq)]
pub enum Payload {
    Flag(bool),
    Count(u64),
    Text(String),
    Number(Float64),
    Numbers(Vec<Float64>),
    Instant(Timestamp),
    Span(TimeSpan),
}

/// A payload with its text and its list as sequences.
pub enum PayloadView {
    Flag(bool),
    Count(u64),
    Text(Seq<char>),
    Number(Float64),
    Numbers(Seq<Float64>),
    Instant(Timestamp),
    Span(TimeSpan),
}

impl PayloadView {
    /// Two payloads hold the same value. Numbers compare as numbers: NaN
    /// equals nothing, not even itself, and the two zeros are equal. A list
    /// of numbers equals another only as a whole.
    pub open spec fn equals(self, other: PayloadView) -> bool {
        match (self, other) {
            (PayloadView::Flag(a), PayloadView::Flag(b)) => a == b,
            (PayloadView::Count(a), PayloadView::Count(b)) => a == b,
            (PayloadView::Text(a), PayloadView::Text(b)) => a == b,
            (PayloadView::Number(a), PayloadView::Number(b)) => a.equals(b),
            (PayloadView::Numbers(a), PayloadView::Numbers(b)) => lists_equal(a, b),
            (PayloadView::Instant(a), PayloadView::Instant(b)) => a == b,
            (PayloadView::Span(a), PayloadView::Span(b)) => a == b,
            _ => false,
        }
    }
}

impl View for Payload {
    type V = PayloadView;

    open spec fn view(&self) -> PayloadView {
        match self {
            Payload::Flag(b) => PayloadView::Flag(*b),
            Payload::Count(n) => PayloadView::Count(*n),
            Payload::Text(s) => PayloadView::Text(s@),
            Payload::Number(v) => PayloadView::Number(*v),
            Payload::Numbers(vs) => PayloadView::Numbers(vs@),
            Payload::Instant(t) => PayloadView::Instant(*t),
            Payload::Span(d) => PayloadView::Span(*d),
        }
    }
}

/// The numerals of a list of numbers.
pub open spec fn numerals(values: Seq<Float64>) -> Seq<Seq<char>> {
    Seq::new(values.len(), |i: int| values[i].numeral())
}

/// A list of numbers as it is published: in square brackets, with commas
/// and no spaces between the numerals.
pub open spec fn list_text(values: Seq<Float64>) -> Seq<char> {
    "["@ + joined(numerals(values), ","@) + "]"@
}

impl MqttPayload for Float64 {
    open spec fn payload_text(&self) -> Seq<char> {
        self.numeral()
    }

    fn to_payload(&self) -> (s: String) {
        self.to_text()
    }
}

impl MqttPayload for Vec<Float64> {
    open spec fn payload_text(&self) -> Seq<char> {
        list_text(self@)
    }

    fn to_payload(&self) -> (s: String) {
        let mut s = String::from_str("[");
        let mut i: usize = 0;
        proof {
            assert(numerals(self@.take(0)) =~= Seq::<Seq<char>>::empty());
        }
        while i < self.len()
            invariant
                i <= self.len(),
                s@ == "["@ + joined(numerals(self@.take(i as int)), ","@),
            decreases self.len() - i,
        {
            let part = self[i].to_text();
            if i > 0 {
                s.append(",");
            }
            s.append(part.as_str());
            proof {
                let before = numerals(self@.take(i as int));
                let after = numerals(self@.take(i + 1));
                assert(after.drop_last() =~= before);
                assert(after.last() == part@);
                assert(s@ =~= "["@ + joined(after, ","@));
            }
            i += 1;
        }
        s.append("]");
        assert(self@.take(self.len() as int) =~= self@);
        s
    }
}

impl PayloadView {
    /// The text of the payload: truth values as `true` and `false`, counts
    /// in decimal, text as it is, numbers by their shortest numeral,
    /// instants in RFC 3339, spans in ISO 8601.
    pub open spec fn text(self) -> Seq<char> {
        match self {
            PayloadView::Flag(b) => b.payload_text(),
            PayloadView::Count(n) => decimal(n as nat),
            PayloadView::Text(t) => t,
            PayloadView::Number(v) => v.numeral(),
            PayloadView::Numbers(vs) => list_text(vs),
            PayloadView::Instant(t) => rfc3339_text(t.secs, t.nanos),
            PayloadView::Span(d) => span_text(d.secs as int),
        }
    }

    /// The payload has a text for certain. Only of instants and spans that
    /// the calendar library may refuse this cannot be said: instants outside
    /// the years 1970 to 9999, and spans of more than `i64::MAX` milliseconds.
    pub open spec fn is_written(self) -> bool {
        match self {
            PayloadView::Instant(t) => 0 <= t.secs < YEAR_10000 && t.nanos < NANOS_PER_SECOND,
            PayloadView::Span(d) => -MAX_SPAN_SECONDS <= d.secs <= MAX_SPAN_SECONDS,
            _ => true,
        }
    }
}

impl Payload {
    /// Tells whether two payloads hold the same value.
    pub fn same(&self, other: &Payload) -> (r: bool)
        ensures
            r == self@.equals(other@),
    {
        match (self, other) {
            (Payload::Flag(a), Payload::Flag(b)) => *a == *b,
            (Payload::Count(a), Payload::Count(b)) => *a == *b,
            (Payload::Text(a), Payload::Text(b)) => same_text(a.as_str(), b.as_str()),
            (Payload::Number(a), Payload::Number(b)) => a.same(*b),
            (Payload::Numbers(a), Payload::Numbers(b)) => same_list(a, b),
            (Payload::Instant(a), Payload::Instant(b)) => a.secs == b.secs && a.nanos == b.nanos,
            (Payload::Span(a), Payload::Span(b)) => a.secs == b.secs,
            _ => false,
        }
    }

    /// Writes the payload as it is published. There is no text for an
    /// instant or a span that the calendar library refuses.
    pub fn render(&self) -> (r: Option<String>)
        ensures
            r matches Some(s) ==> s@ == self@.text(),
            self@.is_written() ==> r is Some,
            self@ is Span && !self@.is_written() ==> r is None,
    {
        match self {
            Payload::Flag(b) => Some(b.to_payload()),
            Payload::Count(n) => Some(n.to_payload()),
            Payload::Text(t) => Some(t.to_payload()),
            Payload::Number(v) => Some(v.to_payload()),
            Payload::Numbers(vs) => Some(vs.to_payload()),
            Payload::Instant(t) => t.to_rfc3339(),
            Payload::Span(d) => d.to_text(),
        }
    }
}

/// One message for the broker.
#[derive(Debug, PartialEq)]
pub struct Publication {
    pub topic: String,
    pub payload: Payload,
    pub qos: QoS,
    pub retain: bool,
}

/// A message with its texts as sequences.
pub struct PublicationView {
    pub topic: Seq<char>,
    pub payload: PayloadView,
    pub qos: QoS,
    pub retain: bool,
}

impl View for Publication {
    type V = PublicationView;

    open spec fn view(&self) -> PublicationView {
        PublicationView {
            topic: self.topic@,
            payload: self.payload@,
            qos: self.qos,
            retain: self.retain,
        }
    }
}

/// The messages of a list, each by its view.
pub open spec fn publication_views(list: Seq<Publication>) -> Seq<PublicationView> {
    Seq::new(list.len(), |i: int| list[i]@)
}

/// The message that a context under `context_topic` makes of a field:
/// the field's name follows the context's topic after a slash, delivery is
/// at least once and the broker retains the message.
pub open spec fn publication(
    context_topic: Seq<char>,
    name: Seq<char>,
    payload: PayloadView,
) -> PublicationView {
    PublicationView {
        topic: context_topic + "/"@ + name,
        payload,
        qos: QoS::AtLeastOnce,
        retain: true,
    }
}

/// A place in the topic tree under which fields are published.
#[derive(Debug, PartialEq)]
pub struct PublishContext {
    pub topic: String,
    pub qos: QoS,
    pub retain: bool,
}

impl PublishContext {
    /// A context that publishes under `topic`, at least once and retained.
    pub fn new(topic: String) -> (context: PublishContext)
        ensures
            context.topic == topic,
            context.qos == QoS::AtLeastOnce,
            context.retain,
    {
        PublishContext { topic, qos: QoS::AtLeastOnce, retain: true }
    }

    /// The message that publishes `payload` under `topic` in this context.
    pub fn publish(&self, topic: &str, payload: Payload) -> (message: Publication)
        ensures
            message.topic@ == self.topic@ + "/"@ + topic@,
            message.payload == payload,
            message.qos == self.qos,
            message.retain == self.retain,
    {
        let mut full_topic = self.topic.clone();
        full_topic.append("/");
        full_topic.append(topic);
        Publication { topic: full_topic, payload, qos: self.qos, retain: self.retain }
    }
}

} // verus!
