use ellie::stream::CallDelta;
use ellie::stream::Fragment;
use ellie::stream::Reply;
use ellie::stream::Role;
use ellie::stream::StreamError;
use ellie::stream::assemble;

fn empty_fragment() -> Fragment {
    Fragment { role: None, content: None, function_call: None, finish_reason: None }
}

fn role_fragment(role: Role) -> Fragment {
    Fragment { role: Some(role), ..empty_fragment() }
}

fn content_fragment(text: &str) -> Fragment {
    Fragment { content: Some(text.to_string()), ..empty_fragment() }
}

fn name_fragment(name: &str) -> Fragment {
    Fragment {
        function_call: Some(CallDelta { name: Some(name.to_string()), arguments: None }),
        ..empty_fragment()
    }
}

fn arguments_fragment(delta: &str) -> Fragment {
    Fragment {
        function_call: Some(CallDelta { name: None, arguments: Some(delta.to_string()) }),
        ..empty_fragment()
    }
}

fn finish_fragment(reason: &str) -> Fragment {
    Fragment { finish_reason: Some(reason.to_string()), ..empty_fragment() }
}

#[test]
fn stop_reply_concatenates_and_trims_content() {
    let fragments = vec![
        role_fragment(Role::Assistant),
        content_fragment("  Hello"),
        content_fragment(", "),
        content_fragment("world!  "),
        finish_fragment("stop"),
    ];
    match assemble(&fragments).unwrap() {
        Reply::Answer { content } => assert_eq!(content, "Hello, world!"),
        Reply::Call { .. } => panic!("a stop reply must carry no function call"),
    }
}

#[test]
fn length_reply_is_a_plain_answer() {
    let fragments = vec![content_fragment("cut sh"), finish_fragment("length")];
    match assemble(&fragments).unwrap() {
        Reply::Answer { content } => assert_eq!(content, "cut sh"),
        Reply::Call { .. } => panic!("a length reply must carry no function call"),
    }
}

#[test]
fn terminal_fragment_content_still_counts() {
    let last = Fragment {
        content: Some(" end".to_string()),
        finish_reason: Some("stop".to_string()),
        ..empty_fragment()
    };
    let fragments = vec![content_fragment("the"), last];
    match assemble(&fragments).unwrap() {
        Reply::Answer { content } => assert_eq!(content, "the end"),
        Reply::Call { .. } => panic!("expected a plain answer"),
    }
}

#[test]
fn function_call_reply_compacts_arguments() {
    let fragments = vec![
        role_fragment(Role::Assistant),
        name_fragment("get_current_weather"),
        arguments_fragment("{\"location\": "),
        arguments_fragment("\"Boston, MA\"}"),
        finish_fragment("function_call"),
    ];
    match assemble(&fragments).unwrap() {
        Reply::Call { name, arguments } => {
            assert_eq!(name, "get_current_weather");
            assert_eq!(arguments, "{\"location\":\"Boston, MA\"}");
        },
        Reply::Answer { .. } => panic!("a function_call reply must carry a call"),
    }
}

#[test]
fn function_call_reply_has_empty_content() {
    let fragments = vec![name_fragment("f"), finish_fragment("function_call")];
    match assemble(&fragments).unwrap() {
        Reply::Call { name, arguments } => {
            assert_eq!(name, "f");
            assert_eq!(arguments, "");
        },
        Reply::Answer { .. } => panic!("expected a call"),
    }
}

#[test]
fn later_name_overwrites_earlier_name() {
    let fragments = vec![
        name_fragment("first"),
        name_fragment("second"),
        finish_fragment("function_call"),
    ];
    match assemble(&fragments).unwrap() {
        Reply::Call { name, .. } => assert_eq!(name, "second"),
        Reply::Answer { .. } => panic!("expected a call"),
    }
}

#[test]
fn malformed_arguments_pass_through_trimmed() {
    let fragments = vec![
        name_fragment("f"),
        arguments_fragment("  {\"open\": "),
        finish_fragment("function_call"),
    ];
    match assemble(&fragments).unwrap() {
        Reply::Call { arguments, .. } => assert_eq!(arguments, "{\"open\":"),
        Reply::Answer { .. } => panic!("expected a call"),
    }
}

#[test]
fn foreign_role_is_a_protocol_violation() {
    let fragments = vec![content_fragment("hi"), role_fragment(Role::User), finish_fragment("stop")];
    assert_eq!(assemble(&fragments).unwrap_err(), StreamError::BadRole);
}

#[test]
fn unknown_finish_reason_is_a_protocol_violation() {
    let fragments = vec![content_fragment("hi"), finish_fragment("content_filter")];
    assert_eq!(assemble(&fragments).unwrap_err(), StreamError::BadFinishReason);
}

#[test]
fn exhausted_fragments_are_a_protocol_violation() {
    let fragments = vec![content_fragment("never"), content_fragment(" ends")];
    assert_eq!(assemble(&fragments).unwrap_err(), StreamError::MissingFinish);
    assert_eq!(assemble(&Vec::new()).unwrap_err(), StreamError::MissingFinish);
}

#[test]
fn feeding_fragments_one_by_one_matches_whole_sequence() {
    let mut accumulator = ellie::stream::StreamAccumulator::new();
    assert!(matches!(accumulator.feed(&content_fragment("par")), Ok(None)));
    assert!(matches!(accumulator.feed(&content_fragment("tial")), Ok(None)));
    match accumulator.feed(&finish_fragment("stop")) {
        Ok(Some(Reply::Answer { content })) => assert_eq!(content, "partial"),
        _ => panic!("the finish reason must end the reply"),
    }
}

#[test]
fn fragments_after_the_finish_are_ignored() {
    let fragments = vec![
        content_fragment("done"),
        finish_fragment("stop"),
        content_fragment("ghost"),
        finish_fragment("function_call"),
    ];
    match assemble(&fragments).unwrap() {
        Reply::Answer { content } => assert_eq!(content, "done"),
        Reply::Call { .. } => panic!("the first finish reason decides"),
    }
}
