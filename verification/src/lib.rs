//! Message-bus relay core: decodes a raw AI payload into a directive,
//! routes directives to destination topics, and resolves correlated
//! replies back into follow-up requests.

pub mod decode;
pub mod laws;
pub mod message;
pub mod params;
pub mod resolve;
pub mod route;

use vstd::prelude::*;

verus! {

/// Every way a single inbound message can fail to decode, route or resolve.
/// The engine reports the error and drops the message; it never panics.
#[derive(Debug, PartialEq, Eq)]
pub enum RelayError {
    /// A backtick fence was opened but not properly closed.
    MalformedFence,
    /// Strict parsing was requested and the payload is not a valid
    /// structured JSON response.
    InvalidResponse,
    /// A `"topic: payload"` string without the `": "` separator;
    /// carries the offending string.
    MalformedCommand(String),
    /// A reply was to be emitted but the return path is empty.
    EmptyResponseTopics,
    /// A reply arrived without the correlation bookkeeping this
    /// engine attaches (`ai_request` / `request` params).
    MissingCorrelationState,
}

/// The mathematical value of a [`RelayError`].
pub enum RelayErrorView {
    MalformedFence,
    InvalidResponse,
    MalformedCommand(Seq<char>),
    EmptyResponseTopics,
    MissingCorrelationState,
}

impl View for RelayError {
    type V = RelayErrorView;

    open spec fn view(&self) -> RelayErrorView {
        match self {
            RelayError::MalformedFence => RelayErrorView::MalformedFence,
            RelayError::InvalidResponse => RelayErrorView::InvalidResponse,
            RelayError::MalformedCommand(s) => RelayErrorView::MalformedCommand(s@),
            RelayError::EmptyResponseTopics => RelayErrorView::EmptyResponseTopics,
            RelayError::MissingCorrelationState => RelayErrorView::MissingCorrelationState,
        }
    }
}

/// The construction-time choices that distinguish deployments of this
/// engine: how strictly payloads are parsed and which fixed topics the
/// correlated round trip uses.
pub struct RelayConfig {
    /// When true, a payload that is not a valid structured JSON response
    /// is an error; when false, it falls back to a plain reply.
    pub strict_structured_parsing: bool,
    /// The topic pushed onto a sub-request's return path so that its
    /// answer routes back into this engine.
    pub reply_topic: String,
    /// This engine's own inbound topic, pushed onto the return path of a
    /// resolved follow-up so the next answer passes through here again.
    pub input_topic: String,
    /// The fixed inbound topic of the AI service, the destination of
    /// every resolved follow-up request.
    pub ai_service_topic: String,
    /// Deployments disagree on whether a message carrying a photo or an
    /// unknown media kind should be dropped as a routing error or merely
    /// logged; when true, the dispatch layer treats it as an error.
    pub reject_opaque_media: bool,
}

impl RelayConfig {
    /// A configuration from its five choices.
    pub fn new(
        strict_structured_parsing: bool,
        reply_topic: String,
        input_topic: String,
        ai_service_topic: String,
        reject_opaque_media: bool,
    ) -> (r: RelayConfig)
        ensures
            r.strict_structured_parsing == strict_structured_parsing,
            r.reply_topic@ == reply_topic@,
            r.input_topic@ == input_topic@,
            r.ai_service_topic@ == ai_service_topic@,
            r.reject_opaque_media == reject_opaque_media,
    {
        RelayConfig {
            strict_structured_parsing,
            reply_topic,
            input_topic,
            ai_service_topic,
            reject_opaque_media,
        }
    }

    /// Whether the dispatch layer may route a message of this media kind:
    /// text and audio always; a photo or an unknown kind only when this
    /// configuration does not reject opaque media.
    pub fn media_is_routable(&self, t: crate::message::MessageType) -> (r: bool)
        ensures
            r == !(self.reject_opaque_media && (t is Photo || t is Unknown)),
    {
        match t {
            crate::message::MessageType::Text => true,
            crate::message::MessageType::Audio => true,
            crate::message::MessageType::Photo => !self.reject_opaque_media,
            crate::message::MessageType::Unknown => !self.reject_opaque_media,
        }
    }
}

} // verus!
