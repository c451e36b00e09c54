use ai_callback::RelayError;
use ai_callback::decode::clean_json;
use ai_callback::params::params_get;
use ai_callback::route::parse_command;

#[test]
fn unfenced_payload_is_unchanged() {
    assert_eq!(clean_json("plain text".to_string()).unwrap(), "plain text");
    assert_eq!(clean_json("".to_string()).unwrap(), "");
    assert_eq!(clean_json("a`b".to_string()).unwrap(), "a`b");
}

#[test]
fn single_backtick_pair_is_stripped() {
    assert_eq!(clean_json("`{\"text\":\"hi\"}`".to_string()).unwrap(), "{\"text\":\"hi\"}");
    assert_eq!(clean_json("``".to_string()).unwrap(), "");
}

#[test]
fn triple_fence_keeps_what_stands_between_the_fence_lines() {
    assert_eq!(
        clean_json("```json\n{\"text\":\"hi\"}\n```".to_string()).unwrap(),
        "{\"text\":\"hi\"}"
    );
    assert_eq!(clean_json("```\nline one\nline two\n```".to_string()).unwrap(), "line one\nline two");
}

#[test]
fn unterminated_fences_are_malformed() {
    assert_eq!(clean_json("`".to_string()).unwrap_err(), RelayError::MalformedFence);
    assert_eq!(clean_json("`oops".to_string()).unwrap_err(), RelayError::MalformedFence);
    assert_eq!(clean_json("```no newline".to_string()).unwrap_err(), RelayError::MalformedFence);
    assert_eq!(clean_json("```\nonly one line".to_string()).unwrap_err(), RelayError::MalformedFence);
}

#[test]
fn command_splits_on_the_first_separator_only() {
    let (topic, payload) = parse_command(&"tts: say: hi".to_string()).unwrap();
    assert_eq!(topic, "tts");
    assert_eq!(payload, "say: hi");
    let (topic, payload) = parse_command(&"lights: on".to_string()).unwrap();
    assert_eq!(topic, "lights");
    assert_eq!(payload, "on");
    let (topic, payload) = parse_command(&": empty topic".to_string()).unwrap();
    assert_eq!(topic, "");
    assert_eq!(payload, "empty topic");
}

#[test]
fn command_without_separator_is_malformed() {
    assert_eq!(
        parse_command(&"bad_format_no_colon".to_string()).unwrap_err(),
        RelayError::MalformedCommand("bad_format_no_colon".to_string())
    );
    assert_eq!(
        parse_command(&"colon:but-no-space".to_string()).unwrap_err(),
        RelayError::MalformedCommand("colon:but-no-space".to_string())
    );
}

#[test]
fn params_lookup_takes_the_front_entry() {
    let entries = vec![
        ("k".to_string(), "v1".to_string()),
        ("k".to_string(), "v2".to_string()),
        ("other".to_string(), "w".to_string()),
    ];
    assert_eq!(params_get(&entries, &"k".to_string()).unwrap(), "v1");
    assert_eq!(params_get(&entries, &"other".to_string()).unwrap(), "w");
    assert!(params_get(&entries, &"missing".to_string()).is_none());
}
