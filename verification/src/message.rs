//! The unit exchanged over the bus, modelled with plain values: the
//! payload text, a closed media-kind tag, the ordered return path of
//! reply topics (front = next hop) and the opaque parameter map.

use vstd::prelude::*;

use crate::RelayError;
use crate::params::clone_params;
use crate::params::params_map;

verus! {

/// The closed set of media kinds a message can carry. New kinds require
/// an addition here, not open-ended inspection.
#[derive(Debug, Clone, Copy, PartialEq, Eq, Structural)]
pub enum MessageType {
    Text,
    Audio,
    Photo,
    Unknown,
}

/// A bus message: its payload text, media kind, return path and params.
#[derive(Debug)]
pub struct Message {
    /// UTF-8 payload; its meaning depends on `message_type`.
    pub text: String,
    /// Media kind of the payload.
    pub message_type: MessageType,
    /// Ordered return path: the topics a reply must be forwarded through,
    /// front first.
    pub response_topics: Vec<String>,
    /// Key/value pairs carried opaquely through relays; the front entry
    /// wins when a key repeats.
    pub params: Vec<(String, String)>,
}

/// The mathematical value of a message.
#[verifier::ext_equal]
pub struct MessageView {
    pub text: Seq<char>,
    pub message_type: MessageType,
    pub response_topics: Seq<Seq<char>>,
    pub params: Map<Seq<char>, Seq<char>>,
}

impl View for Message {
    type V = MessageView;

    open spec fn view(&self) -> MessageView {
        MessageView {
            text: self.text@,
            message_type: self.message_type,
            response_topics: self.response_topics.deep_view(),
            params: params_map(self.params@),
        }
    }
}

/// A fresh copy of a topic list, entry for entry.
pub fn clone_topics(topics: &Vec<String>) -> (r: Vec<String>)
    ensures
        r@ == topics@,
{
    let mut r: Vec<String> = Vec::new();
    let mut i: usize = 0;
    while i < topics.len()
        invariant
            0 <= i <= topics@.len(),
            r@ =~= topics@.subrange(0, i as int),
        decreases topics@.len() - i,
    {
        r.push(topics[i].clone());
        proof {
            assert(r@ =~= topics@.subrange(0, i as int + 1));
        }
        i += 1;
    }
    proof {
        assert(topics@.subrange(0, topics@.len() as int) =~= topics@);
    }
    r
}

/// A fresh copy of a topic list with one topic added at the front: the
/// new next hop of the return path.
pub fn push_front_topic(topics: &Vec<String>, front: String) -> (r: Vec<String>)
    ensures
        r@ == seq![front] + topics@,
{
    let mut r = clone_topics(topics);
    r.insert(0, front);
    proof {
        assert(r@ =~= seq![front] + topics@);
    }
    r
}

impl Message {
    /// The standard reply hop: a clone of this message with `text`
    /// replaced and the front of the return path consumed; that front
    /// topic is where the reply goes. An empty return path is a routing
    /// error, never a silent drop.
    pub fn reply(&self, text: String, message_type: MessageType) -> (r: Result<
        (String, Message),
        RelayError,
    >)
        ensures
            (r is Ok) == (self@.response_topics.len() > 0),
            r matches Err(e) ==> e == RelayError::EmptyResponseTopics,
            r matches Ok(p) ==> {
                &&& self@.response_topics.len() > 0
                &&& p.0@ == self@.response_topics[0]
                &&& p.1@.text == text@
                &&& p.1@.message_type == message_type
                &&& p.1@.response_topics == self@.response_topics.drop_first()
                &&& p.1@.params == self@.params
            },
    {
        if self.response_topics.len() == 0 {
            return Err(RelayError::EmptyResponseTopics);
        }
        let topic = self.response_topics[0].clone();
        let mut rest = clone_topics(&self.response_topics);
        rest.remove(0);
        let m = Message {
            text,
            message_type,
            response_topics: rest,
            params: clone_params(&self.params),
        };
        proof {
            assert(rest@ =~= self.response_topics@.drop_first());
            assert(m@.response_topics =~= self@.response_topics.drop_first());
        }
        Ok((topic, m))
    }
}

} // verus!
