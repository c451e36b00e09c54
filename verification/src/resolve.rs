//! The correlation resolver: when a reply to a correlated sub-request
//! arrives, the original conversational context is recovered from the
//! params the router smuggled into the sub-request, folded together with
//! the reply's answer into a follow-up request, and addressed to the AI
//! service's inbound topic.

use vstd::prelude::*;

use crate::RelayConfig;
use crate::RelayError;
use crate::RelayErrorView;
use crate::message::Message;
use crate::message::MessageView;
use crate::message::push_front_topic;
use crate::params::clone_params;
use crate::params::params_get;

verus! {

/// What serialising the follow-up request yields: the JSON object whose
/// `text` field is the original user request and whose `other_info`
/// field maps the sub-request's identity to the reply's answer. A
/// function of the three strings alone.
pub uninterp spec fn follow_up_json(
    user_request: Seq<char>,
    ai_request: Seq<char>,
    answer: Seq<char>,
) -> Seq<char>;

/// Relies on serde_json::to_string over a serde_json::Value object built
/// with serde_json::Map::insert: serialises the follow-up request of the
/// wire schema — `text` carrying `user_request`, `other_info` carrying
/// the one mapping from `ai_request` to `answer`. The result depends on
/// the three strings alone.
#[verifier::external_body]
fn encode_follow_up(user_request: &String, ai_request: &String, answer: &String) -> (r: String)
    ensures
        r@ == follow_up_json(user_request@, ai_request@, answer@),
{
    let mut info = serde_json::Map::new();
    info.insert(ai_request.clone(), serde_json::Value::String(answer.clone()));
    let mut obj = serde_json::Map::new();
    obj.insert("text".to_owned(), serde_json::Value::String(user_request.clone()));
    obj.insert("other_info".to_owned(), serde_json::Value::Object(info));
    serde_json::to_string(&serde_json::Value::Object(obj)).unwrap_or_default()
}

impl RelayConfig {
    /// What resolving a reply yields: an orphan reply — one without both
    /// correlation params — is an error; otherwise the follow-up request
    /// pair, addressed to the AI service's inbound topic, with this
    /// engine's inbound topic pushed onto the return path and the params
    /// travelling on unchanged.
    pub open spec fn resolve_spec(self, reply: MessageView) -> Result<
        (Seq<char>, MessageView),
        RelayErrorView,
    > {
        if reply.params.contains_key("ai_request"@) && reply.params.contains_key("request"@) {
            Ok(
                (
                    self.ai_service_topic@,
                    MessageView {
                        text: follow_up_json(
                            reply.params["request"@],
                            reply.params["ai_request"@],
                            reply.text,
                        ),
                        message_type: reply.message_type,
                        response_topics: seq![self.input_topic@] + reply.response_topics,
                        params: reply.params,
                    },
                ),
            )
        } else {
            Err(RelayErrorView::MissingCorrelationState)
        }
    }

    /// Reconstructs the follow-up request from a correlated reply,
    /// exactly as [`RelayConfig::resolve_spec`] says.
    pub fn resolve(&self, reply: &Message) -> (r: Result<(String, Message), RelayError>)
        ensures
            (r is Ok) == (self.resolve_spec(reply@) is Ok),
            r matches Ok(p) ==> self.resolve_spec(reply@) == Ok::<
                (Seq<char>, MessageView),
                RelayErrorView,
            >((p.0@, p.1@)),
            r matches Err(e) ==> self.resolve_spec(reply@) == Err::<
                (Seq<char>, MessageView),
                RelayErrorView,
            >(e@),
    {
        let ai_request = match params_get(&reply.params, &String::from_str("ai_request")) {
            None => return Err(RelayError::MissingCorrelationState),
            Some(v) => v,
        };
        let user_request = match params_get(&reply.params, &String::from_str("request")) {
            None => return Err(RelayError::MissingCorrelationState),
            Some(v) => v,
        };
        let text = encode_follow_up(user_request, ai_request, &reply.text);
        let m = Message {
            text,
            message_type: reply.message_type,
            response_topics: push_front_topic(&reply.response_topics, self.input_topic.clone()),
            params: clone_params(&reply.params),
        };
        proof {
            assert(m.response_topics.deep_view() =~= seq![self.input_topic@]
                + reply.response_topics.deep_view());
            assert(self.resolve_spec(reply@) matches Ok(p) && m@ =~= p.1);
        }
        Ok((self.ai_service_topic.clone(), m))
    }
}

} // verus!
