//! The engine's cross-cutting laws, each proved once and for all inputs:
//! how fence stripping, command parsing, routing and correlation
//! resolution relate to one another.

use vstd::prelude::*;

use crate::RelayConfig;
use crate::RelayErrorView;
use crate::decode::DirectiveView;
use crate::decode::clean_spec;
use crate::decode::decode_spec;
use crate::decode::starts_with_backtick;
use crate::message::MessageView;
use crate::route::command_pair_of;
use crate::route::command_parts;
use crate::route::lemma_first_sep_char;
use crate::route::lemma_route_commands;
use crate::route::reply_pair;
use crate::route::sep_at;
use crate::resolve::follow_up_json;

verus! {

/// Fence stripping is idempotent on already-clean input: a payload that
/// is not backtick-wrapped is left unchanged by stripping, so decoding
/// the stripped payload is the same as decoding the payload itself.
pub proof fn lemma_fence_strip_idempotent(raw: Seq<char>, strict: bool)
    requires
        !starts_with_backtick(raw),
    ensures
        clean_spec(raw) == Ok::<Seq<char>, RelayErrorView>(raw),
        clean_spec(raw) matches Ok(cleaned) && decode_spec(cleaned, strict) == decode_spec(
            raw,
            strict,
        ),
{
}

/// A valid `"topic: payload"` string parses back into exactly its topic
/// and payload: when the topic holds no `": "` of its own, the payload —
/// which may itself contain further `": "` substrings — is returned
/// whole, not split again.
pub proof fn lemma_command_round_trip(topic: Seq<char>, payload: Seq<char>)
    requires
        forall|i: int| !sep_at(topic, i),
    ensures
        command_parts(topic + seq![':', ' '] + payload) == Some((topic, payload)),
{
    let s = topic + seq![':', ' '] + payload;
    let tl = topic.len() as int;
    assert(s[tl] == ':');
    assert(s[tl + 1] == ' ');
    assert(sep_at(s, tl));
    assert forall|j: int| 0 <= j < tl implies !sep_at(s, j) by {
        if j + 1 < tl {
            assert(s[j] == topic[j]);
            assert(s[j + 1] == topic[j + 1]);
            assert(!sep_at(topic, j));
        } else {
            assert(s[j + 1] == ':');
        }
    }
    lemma_first_sep_char(s);
    match crate::route::first_sep(s) {
        None => {
            assert(!sep_at(s, tl));
        },
        Some(i) => {
            assert(i == tl);
        },
    }
    assert(s.subrange(0, tl) =~= topic);
    assert(s.subrange(tl + 2, s.len() as int) =~= payload);
}

/// Routing a plain reply always pops exactly one entry from the return
/// path: the emitted message's path is the origin's without its front
/// hop, and an empty path is a routing error, not a silent drop.
pub proof fn lemma_plain_reply_pops_one(cfg: RelayConfig, text: Seq<char>, origin: MessageView)
    ensures
        origin.response_topics.len() == 0 ==> cfg.route_spec(
            DirectiveView::PlainReply { text },
            origin,
        ) == Err::<Seq<(Seq<char>, MessageView)>, RelayErrorView>(
            RelayErrorView::EmptyResponseTopics,
        ),
        origin.response_topics.len() > 0 ==> (cfg.route_spec(
            DirectiveView::PlainReply { text },
            origin,
        ) matches Ok(pairs) && pairs.len() == 1 && pairs[0].0 == origin.response_topics[0]
            && pairs[0].1.text == text && pairs[0].1.response_topics
            == origin.response_topics.drop_first() && pairs[0].1.response_topics.len()
            == origin.response_topics.len() - 1 && pairs[0].1.params == origin.params),
{
}

/// Routing a structured response with both an answer and commands emits
/// the reply pair first, then one pair per command in list order.
pub proof fn lemma_reply_before_commands(
    cfg: RelayConfig,
    text: Seq<char>,
    commands: Seq<Seq<char>>,
    origin: MessageView,
)
    requires
        text.len() > 0,
        origin.response_topics.len() > 0,
        forall|k: int| 0 <= k < commands.len() ==> command_parts(#[trigger] commands[k]) is Some,
    ensures
        cfg.route_spec(
            DirectiveView::StructuredResponse { text: Some(text), commands, request: None },
            origin,
        ) matches Ok(pairs) && pairs.len() == 1 + commands.len() && pairs[0] == reply_pair(
            origin,
            text,
        ) && (forall|k: int|
            0 <= k < commands.len() ==> pairs[1 + k] == command_pair_of(
                origin,
                #[trigger] commands[k],
            )),
{
    lemma_route_commands(origin, commands);
    let rp = Seq::<(Seq<char>, MessageView)>::empty();
    let tp = seq![reply_pair(origin, text)];
    let cp = match crate::route::route_commands(origin, commands) {
        Ok(p) => p,
        Err(_) => Seq::empty(),
    };
    let pairs = rp + tp + cp;
    assert(cfg.route_spec(
        DirectiveView::StructuredResponse { text: Some(text), commands, request: None },
        origin,
    ) == Ok::<Seq<(Seq<char>, MessageView)>, RelayErrorView>(pairs));
    assert(pairs[0] == tp[0]);
    assert forall|k: int| 0 <= k < commands.len() implies pairs[1 + k] == command_pair_of(
        origin,
        #[trigger] commands[k],
    ) by {
        assert(pairs[1 + k] == cp[k]);
    }
}

/// A correlated round trip preserves identity: routing a request
/// directive stores the full request string and keeps the original user
/// request reachable in the sub-request's params; resolving any reply
/// that carries those params back reconstructs a follow-up built from
/// exactly that original user request text and that request string.
pub proof fn lemma_correlated_round_trip(
    cfg: RelayConfig,
    req: Seq<char>,
    origin: MessageView,
    reply: MessageView,
)
    requires
        req.len() > 0,
        command_parts(req) is Some,
        origin.params.contains_key("request"@),
        reply.params == origin.params.insert("ai_request"@, req),
    ensures
        cfg.route_spec(
            DirectiveView::StructuredResponse {
                text: None,
                commands: Seq::empty(),
                request: Some(req),
            },
            origin,
        ) matches Ok(pairs) && pairs.len() == 1 && pairs[0].1.params == reply.params,
        cfg.resolve_spec(reply) matches Ok(p) && p.1.text == follow_up_json(
            origin.params["request"@],
            req,
            reply.text,
        ),
{
    reveal_strlit("ai_request");
    reveal_strlit("request");
    assert("ai_request"@.len() == 10);
    assert("request"@.len() == 7);
    assert("ai_request"@ != "request"@);
    assert(reply.params.contains_key("ai_request"@));
    assert(reply.params.contains_key("request"@));
    assert(reply.params["request"@] == origin.params["request"@]);
    assert(reply.params["ai_request"@] == req);
    let d = DirectiveView::StructuredResponse {
        text: None,
        commands: Seq::empty(),
        request: Some(req),
    };
    let rp = match cfg.request_pairs_spec(Some(req), origin) {
        Ok(p) => p,
        Err(_) => Seq::empty(),
    };
    assert(cfg.route_spec(d, origin) == Ok::<Seq<(Seq<char>, MessageView)>, RelayErrorView>(
        rp + Seq::empty() + Seq::empty(),
    ));
    assert((rp + Seq::empty() + Seq::empty())[0] == rp[0]);
}

} // verus!
