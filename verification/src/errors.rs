//! Error types of the bridge, with the text each one is reported as.

use crate::text::{concat2, decimal, unsigned_text};
use vstd::prelude::*;
use vstd::string::*;

verus! {

/// `anyhow::Error`, carried as it is: nothing is known of what is in it.
#[verifier::external_type_specification]
#[verifier::external_body]
pub struct ExAnyhowError(anyhow::Error);

/// `serde_json::Error`, carried as it is: nothing is known of what is in it.
#[verifier::external_type_specification]
#[verifier::external_body]
pub struct ExSerdeJsonError(serde_json::Error);

/// Errors of talking to the storage system and of reading its answers.
#[derive(Debug)]
pub enum E3dcError {
    ConnectionFailed { host: String, reason: String },
    QueryFailed(String),
    ParseError(String),
    MissingTag(u32),
    MissingData(u32),
    Type(String),
    Other(anyhow::Error),
}

/// What an [`E3dcError`] says, with its texts as sequences of characters.
pub enum Failure {
    ConnectionFailed { host: Seq<char>, reason: Seq<char> },
    QueryFailed(Seq<char>),
    ParseError(Seq<char>),
    MissingTag(u32),
    MissingData(u32),
    Type(Seq<char>),
    Other,
}

impl Failure {
    /// The text a failure is reported as. `Other` carries a foreign error,
    /// whose own text is reported; it is not described here.
    pub open spec fn text(self) -> Seq<char> {
        match self {
            Failure::ConnectionFailed { host, reason } => "Failed to connect to E3DC at "@ + host
                + ": "@ + reason,
            Failure::QueryFailed(reason) => "Failed to query E3DC data: "@ + reason,
            Failure::ParseError(reason) => "Failed to parse E3DC response: "@ + reason,
            Failure::MissingTag(tag) => "Missing tag: "@ + decimal(tag as nat),
            Failure::MissingData(tag) => "Missing data in tag: "@ + decimal(tag as nat),
            Failure::Type(expected) => "Invalid Datatype expected: "@ + expected,
            Failure::Other => Seq::empty(),
        }
    }
}

impl View for E3dcError {
    type V = Failure;

    open spec fn view(&self) -> Failure {
        match self {
            E3dcError::ConnectionFailed { host, reason } => Failure::ConnectionFailed {
                host: host@,
                reason: reason@,
            },
            E3dcError::QueryFailed(reason) => Failure::QueryFailed(reason@),
            E3dcError::ParseError(reason) => Failure::ParseError(reason@),
            E3dcError::MissingTag(tag) => Failure::MissingTag(*tag),
            E3dcError::MissingData(tag) => Failure::MissingData(*tag),
            E3dcError::Type(expected) => Failure::Type(expected@),
            E3dcError::Other(_) => Failure::Other,
        }
    }
}

/// A result has the outcome that `expected` describes: the same value by
/// its view, or the same failure.
pub open spec fn agrees<T: View>(r: Result<T, E3dcError>, expected: Result<T::V, Failure>) -> bool {
    match expected {
        Ok(v) => r matches Ok(got) && got@ == v,
        Err(f) => r matches Err(e) && e@ == f,
    }
}

/// `anyhow::Error`'s `Display`: the text of the outermost error. Nothing is
/// claimed of the text.
#[verifier::external_body]
fn foreign_text(error: &anyhow::Error) -> String {
    format!("{}", error)
}

/// `serde_json::Error`'s `Debug` text. Nothing is claimed of the text.
#[verifier::external_body]
fn serialization_debug_text(error: &serde_json::Error) -> String {
    format!("{:?}", error)
}

impl E3dcError {
    /// The text this error is reported as.
    pub fn to_string(&self) -> (s: String)
        ensures
            !(self is Other) ==> s@ == self@.text(),
    {
        match self {
            E3dcError::ConnectionFailed { host, reason } => {
                let mut s = String::from_str("Failed to connect to E3DC at ");
                s.append(host.as_str());
                s.append(": ");
                s.append(reason.as_str());
                s
            },
            E3dcError::QueryFailed(reason) => concat2(
                "Failed to query E3DC data: ",
                reason.as_str(),
            ),
            E3dcError::ParseError(reason) => concat2(
                "Failed to parse E3DC response: ",
                reason.as_str(),
            ),
            E3dcError::MissingTag(tag) => concat2(
                "Missing tag: ",
                unsigned_text(*tag as u64).as_str(),
            ),
            E3dcError::MissingData(tag) => concat2(
                "Missing data in tag: ",
                unsigned_text(*tag as u64).as_str(),
            ),
            E3dcError::Type(expected) => concat2("Invalid Datatype expected: ", expected.as_str()),
            E3dcError::Other(error) => foreign_text(error),
        }
    }
}

impl From<anyhow::Error> for E3dcError {
    fn from(error: anyhow::Error) -> (r: E3dcError) {
        E3dcError::Other(error)
    }
}

impl vstd::std_specs::convert::FromSpecImpl<anyhow::Error> for E3dcError {
    open spec fn obeys_from_spec() -> bool {
        true
    }

    open spec fn from_spec(error: anyhow::Error) -> E3dcError {
        E3dcError::Other(error)
    }
}

/// Errors of publishing to the broker.
#[derive(Debug)]
pub enum MqttError {
    PublishFailed { topic: String, reason: String },
    SerializationError { error: serde_json::Error },
    ClientError(String),
}

impl MqttError {
    /// The text of every error but a serialization error, which reports the
    /// foreign error's own description after a fixed prefix.
    pub open spec fn text(&self) -> Seq<char> {
        match self {
            MqttError::PublishFailed { topic, reason } => "Failed to publish message to topic '"@
                + topic@ + "': "@ + reason@,
            MqttError::SerializationError { error } => "Failed to serialize data: "@,
            MqttError::ClientError(reason) => "MQTT client error: "@ + reason@,
        }
    }

    /// The text this error is reported as.
    pub fn to_string(&self) -> (s: String)
        ensures
            !(self is SerializationError) ==> s@ == self.text(),
            self is SerializationError ==> crate::text::has_prefix(s@, self.text()),
    {
        match self {
            MqttError::PublishFailed { topic, reason } => {
                let mut s = String::from_str("Failed to publish message to topic '");
                s.append(topic.as_str());
                s.append("': ");
                s.append(reason.as_str());
                s
            },
            MqttError::SerializationError { error } => {
                let detail = serialization_debug_text(error);
                let s = concat2("Failed to serialize data: ", detail.as_str());
                assert(s@.subrange(0, "Failed to serialize data: "@.len() as int)
                    =~= "Failed to serialize data: "@);
                s
            },
            MqttError::ClientError(reason) => concat2("MQTT client error: ", reason.as_str()),
        }
    }
}

} // verus!
