use ai_callback::RelayConfig;
use ai_callback::RelayError;
use ai_callback::decode::Directive;
use ai_callback::decode::clean_json;
use ai_callback::message::Message;
use ai_callback::message::MessageType;
use ai_callback::params::params_get;
use ai_callback::route::get_message_from_command;

fn cfg(strict: bool) -> RelayConfig {
    RelayConfig::new(
        strict,
        "ai_callback.reply".to_string(),
        "ai_callback".to_string(),
        "chat".to_string(),
        false,
    )
}

#[test]
fn media_policy_is_a_construction_time_choice() {
    let lenient = cfg(true);
    assert!(lenient.media_is_routable(MessageType::Photo));
    assert!(lenient.media_is_routable(MessageType::Unknown));
    let rejecting = RelayConfig::new(
        true,
        "ai_callback.reply".to_string(),
        "ai_callback".to_string(),
        "chat".to_string(),
        true,
    );
    assert!(rejecting.media_is_routable(MessageType::Text));
    assert!(rejecting.media_is_routable(MessageType::Audio));
    assert!(!rejecting.media_is_routable(MessageType::Photo));
    assert!(!rejecting.media_is_routable(MessageType::Unknown));
}

fn origin(text: &str, topics: &[&str], params: &[(&str, &str)]) -> Message {
    Message {
        text: text.to_string(),
        message_type: MessageType::Text,
        response_topics: topics.iter().map(|t| t.to_string()).collect(),
        params: params.iter().map(|(k, v)| (k.to_string(), v.to_string())).collect(),
    }
}

fn get<'a>(m: &'a Message, key: &str) -> Option<&'a String> {
    params_get(&m.params, &key.to_string())
}

#[test]
fn single_fenced_command_relays_to_its_topic() {
    let msg = origin("`chat: Hello there`", &[], &[]);
    let cleaned = clean_json(msg.text.clone()).unwrap();
    assert_eq!(cleaned, "chat: Hello there");
    let (topic, relayed) = get_message_from_command(&cleaned, &msg).unwrap();
    assert_eq!(topic, "chat");
    assert_eq!(relayed.text, "Hello there");
    assert_eq!(relayed.message_type, MessageType::Text);
}

#[test]
fn reply_pair_comes_before_command_pairs() {
    let c = cfg(true);
    let msg = origin("{\"text\":\"Sure!\",\"commands\":[\"lights: on\"]}", &["user"], &[]);
    let d = c.decode(&msg.text).unwrap();
    let pairs = c.route(&d, &msg).unwrap();
    assert_eq!(pairs.len(), 2);
    assert_eq!(pairs[0].0, "user");
    assert_eq!(pairs[0].1.text, "Sure!");
    assert!(pairs[0].1.response_topics.is_empty());
    assert_eq!(pairs[1].0, "lights");
    assert_eq!(pairs[1].1.text, "on");
    assert_eq!(pairs[1].1.response_topics, vec!["user".to_string()]);
}

#[test]
fn correlated_request_stashes_its_context() {
    let c = cfg(true);
    let msg = origin(
        "{\"request\":\"weather: Paris\"}",
        &["user"],
        &[("request", "What's the weather?")],
    );
    let d = c.decode(&msg.text).unwrap();
    let pairs = c.route(&d, &msg).unwrap();
    assert_eq!(pairs.len(), 1);
    assert_eq!(pairs[0].0, "weather");
    let sub = &pairs[0].1;
    assert_eq!(sub.text, "Paris");
    assert_eq!(get(sub, "ai_request").unwrap(), "weather: Paris");
    assert_eq!(get(sub, "request").unwrap(), "What's the weather?");
    assert_eq!(sub.response_topics[0], "ai_callback.reply");
    assert_eq!(sub.response_topics[1], "user");
}

#[test]
fn orphan_reply_is_missing_correlation_state() {
    let c = cfg(true);
    let reply = origin("sunny", &["user"], &[("request", "What's the weather?")]);
    assert_eq!(c.resolve(&reply).unwrap_err(), RelayError::MissingCorrelationState);
    let reply = origin("sunny", &["user"], &[("ai_request", "weather: Paris")]);
    assert_eq!(c.resolve(&reply).unwrap_err(), RelayError::MissingCorrelationState);
}

#[test]
fn malformed_command_fails_the_whole_batch() {
    let c = cfg(true);
    let msg = origin("x", &["user"], &[]);
    let d = Directive::StructuredResponse {
        text: None,
        commands: vec!["bad_format_no_colon".to_string()],
        request: None,
    };
    assert_eq!(
        c.route(&d, &msg).unwrap_err(),
        RelayError::MalformedCommand("bad_format_no_colon".to_string())
    );
}

#[test]
fn later_malformed_command_emits_nothing() {
    let c = cfg(true);
    let msg = origin("x", &["user"], &[]);
    let d = Directive::StructuredResponse {
        text: Some("Sure!".to_string()),
        commands: vec!["lights: on".to_string(), "nope".to_string()],
        request: None,
    };
    assert_eq!(c.route(&d, &msg).unwrap_err(), RelayError::MalformedCommand("nope".to_string()));
}

#[test]
fn empty_payload_is_a_noop() {
    let c = cfg(true);
    let d = c.decode(&String::new()).unwrap();
    assert!(matches!(d, Directive::NoOp));
    let pairs = c.route(&d, &origin("", &[], &[])).unwrap();
    assert!(pairs.is_empty());
}

#[test]
fn plain_reply_with_empty_return_path_errors() {
    let c = cfg(false);
    let d = c.decode(&"just some words".to_string()).unwrap();
    assert!(matches!(&d, Directive::PlainReply { text } if text == "just some words"));
    assert_eq!(
        c.route(&d, &origin("x", &[], &[])).unwrap_err(),
        RelayError::EmptyResponseTopics
    );
}

#[test]
fn strictness_decides_the_plain_text_fallback() {
    let lenient = cfg(false);
    let raw = "not json at all".to_string();
    let d = lenient.decode(&raw).unwrap();
    assert!(matches!(&d, Directive::PlainReply { text } if text == "not json at all"));
    let strict = cfg(true);
    assert_eq!(strict.decode(&raw).unwrap_err(), RelayError::InvalidResponse);
}

#[test]
fn full_structured_response_keeps_the_fixed_order() {
    let c = cfg(true);
    let msg = origin(
        "{\"text\":\"Sure!\",\"commands\":[\"lights: on\",\"tts: say: hi\"],\"request\":\"weather: Paris\"}",
        &["user"],
        &[("request", "What's the weather?")],
    );
    let d = c.decode(&msg.text).unwrap();
    let pairs = c.route(&d, &msg).unwrap();
    assert_eq!(pairs.len(), 4);
    assert_eq!(pairs[0].0, "weather");
    assert_eq!(pairs[0].1.text, "Paris");
    assert_eq!(pairs[1].0, "user");
    assert_eq!(pairs[1].1.text, "Sure!");
    assert_eq!(pairs[2].0, "lights");
    assert_eq!(pairs[2].1.text, "on");
    // the payload keeps any further ": " unsplit
    assert_eq!(pairs[3].0, "tts");
    assert_eq!(pairs[3].1.text, "say: hi");
}

#[test]
fn empty_request_field_is_skipped() {
    let c = cfg(true);
    let msg = origin("{\"request\":\"\",\"text\":\"hi\"}", &["user"], &[]);
    let d = c.decode(&msg.text).unwrap();
    let pairs = c.route(&d, &msg).unwrap();
    assert_eq!(pairs.len(), 1);
    assert_eq!(pairs[0].0, "user");
    assert_eq!(pairs[0].1.text, "hi");
}

#[test]
fn resolving_a_round_trip_restores_the_original_request() {
    let c = cfg(true);
    let msg = origin(
        "{\"request\":\"weather: Paris\"}",
        &["user"],
        &[("request", "What's the weather?")],
    );
    let d = c.decode(&msg.text).unwrap();
    let pairs = c.route(&d, &msg).unwrap();
    let sub = &pairs[0].1;
    // the downstream service answers, keeping the correlation params
    let reply = Message {
        text: "sunny".to_string(),
        message_type: MessageType::Text,
        response_topics: sub.response_topics[1..].to_vec(),
        params: sub.params.clone(),
    };
    let (topic, follow_up) = c.resolve(&reply).unwrap();
    assert_eq!(topic, "chat");
    assert_eq!(follow_up.response_topics[0], "ai_callback");
    assert_eq!(follow_up.response_topics[1], "user");
    let v: serde_json::Value = serde_json::from_str(&follow_up.text).unwrap();
    assert_eq!(v["text"].as_str().unwrap(), "What's the weather?");
    assert_eq!(v["other_info"]["weather: Paris"].as_str().unwrap(), "sunny");
}

#[test]
fn resolve_keeps_the_reply_params() {
    let c = cfg(true);
    let reply = origin(
        "42",
        &["user"],
        &[("ai_request", "calc: 6*7"), ("request", "how much?"), ("extra", "kept")],
    );
    let (_, follow_up) = c.resolve(&reply).unwrap();
    assert_eq!(get(&follow_up, "extra").unwrap(), "kept");
    assert_eq!(get(&follow_up, "ai_request").unwrap(), "calc: 6*7");
}

#[test]
fn reply_pops_exactly_one_hop() {
    let msg = origin("x", &["a", "b"], &[("k", "v")]);
    let (topic, m) = msg.reply("answer".to_string(), MessageType::Text).unwrap();
    assert_eq!(topic, "a");
    assert_eq!(m.text, "answer");
    assert_eq!(m.response_topics, vec!["b".to_string()]);
    assert_eq!(get(&m, "k").unwrap(), "v");
    let empty = origin("x", &[], &[]);
    assert_eq!(
        empty.reply("answer".to_string(), MessageType::Text).unwrap_err(),
        RelayError::EmptyResponseTopics
    );
}
