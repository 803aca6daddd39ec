use ellie::message::Message;
use ellie::models::choose_model;
use ellie::models::messages_fit_model;
use ellie::registry::CallPlan;
use ellie::registry::FunctionResponse;
use ellie::registry::Functions;
use ellie::registry::Provider;
use ellie::registry::SpecParseError;
use ellie::stream::CallDelta;
use ellie::turn::collect_specifications;
use ellie::stream::Fragment;
use ellie::stream::Reply;
use ellie::stream::Role;
use ellie::stream::assemble;
use ellie::turn::Turn;
use ellie::turn::TurnError;

fn weather_provider(safe: bool) -> Provider {
    Provider {
        name: "get_current_weather".to_string(),
        command: "true".to_string(),
        args: Vec::new(),
        safe,
    }
}

fn call_fragments(name: &str, arguments: &str) -> Vec<Fragment> {
    vec![
        Fragment {
            role: Some(Role::Assistant),
            content: None,
            function_call: Some(CallDelta { name: Some(name.to_string()), arguments: None }),
            finish_reason: None,
        },
        Fragment {
            role: None,
            content: None,
            function_call: Some(CallDelta { name: None, arguments: Some(arguments.to_string()) }),
            finish_reason: Some("function_call".to_string()),
        },
    ]
}

fn answer_fragments(text: &str) -> Vec<Fragment> {
    vec![
        Fragment {
            role: Some(Role::Assistant),
            content: Some(text.to_string()),
            function_call: None,
            finish_reason: Some("stop".to_string()),
        },
    ]
}

#[test]
fn short_input_picks_the_cheapest_model() {
    let turn = Turn::new("What's the weather in Boston?").unwrap();
    let request = turn.build_request(Vec::new()).unwrap();
    assert_eq!(request.model, "gpt-3.5-turbo");
    assert!(request.functions.is_none());
    assert_eq!(request.messages.len(), 1);
}

#[test]
fn long_conversation_needs_a_larger_model() {
    let long_text = "many words fill the context window ".repeat(3000);
    let messages = vec![Message::User { content: long_text }];
    let chosen = choose_model(&messages).unwrap();
    assert_eq!(chosen, "gpt-4-32k");
}

#[test]
fn unknown_model_has_no_budget() {
    let messages = vec![Message::User { content: "hi".to_string() }];
    assert!(messages_fit_model("no-such-model-name", &messages).is_none());
    assert_eq!(messages_fit_model("gpt-4", &messages), Some(true));
}

#[test]
fn oversized_input_fails_the_turn() {
    let huge = "x ".repeat(40000);
    assert_eq!(Turn::new(&huge).unwrap_err(), TurnError::InputDoesNotFit);
}

#[test]
fn weather_turn_runs_end_to_end() {
    // Input -> assistant function call -> executed result -> final answer:
    // a four-message conversation.
    let (functions, warnings) =
        Functions::load(vec![weather_provider(true)], Vec::new()).unwrap();
    assert!(warnings.is_empty());

    let mut turn = Turn::new("What's the weather in Boston?").unwrap();
    assert!(!turn.is_done());

    let reply = assemble(&call_fragments("get_current_weather", "{\"location\": \"Boston\"}"))
        .unwrap();
    let (name, arguments) = match &reply {
        Reply::Call { name, arguments } => (name.clone(), arguments.clone()),
        Reply::Answer { .. } => panic!("the first reply must request the function"),
    };
    assert_eq!(arguments, "{\"location\":\"Boston\"}");
    turn.push_reply(reply);

    // The provider is safe: execution is allowed with no prompt.
    assert_eq!(functions.plan_call(&name), CallPlan::Execute);
    let response = FunctionResponse::Executed("{\"temperature\": 72}".to_string());
    turn.push_function_result(&name, &response);
    assert!(!turn.is_done());

    let second = assemble(&answer_fragments("It is 72F in Boston.")).unwrap();
    turn.push_reply(second);
    assert!(turn.is_done());

    let messages = turn.messages();
    assert_eq!(messages.len(), 4);
    assert!(matches!(&messages[0], Message::User { content } if content == "What's the weather in Boston?"));
    assert!(
        matches!(&messages[1], Message::AssistantCall { name, arguments }
            if name == "get_current_weather" && arguments == "{\"location\":\"Boston\"}")
    );
    assert!(
        matches!(&messages[2], Message::Function { name, content }
            if name == "get_current_weather" && content == "{\"temperature\":72}")
    );
    assert!(matches!(&messages[3], Message::Assistant { content } if content == "It is 72F in Boston."));
}

#[test]
fn denied_approval_aborts_the_call_but_not_the_turn() {
    let (functions, _) = Functions::load(vec![weather_provider(false)], Vec::new()).unwrap();

    let mut turn = Turn::new("What's the weather in Boston?").unwrap();
    let reply = assemble(&call_fragments("get_current_weather", "{}")).unwrap();
    let name = match &reply {
        Reply::Call { name, .. } => name.clone(),
        Reply::Answer { .. } => panic!("the first reply must request the function"),
    };
    turn.push_reply(reply);

    // The provider is not safe: consent is demanded before any launch.
    assert_eq!(functions.plan_call(&name), CallPlan::NeedsApproval);
    // The user denies: no process runs, and the model is told so.
    let response = FunctionResponse::Aborted;
    turn.push_function_result(&name, &response);
    assert!(!turn.is_done());

    let messages = turn.messages();
    assert!(
        matches!(&messages[2], Message::Function { content, .. }
            if content == "function call aborted: user denied command execution")
    );

    // The loop continues until a plain answer arrives.
    let second = assemble(&answer_fragments("I cannot check without running the tool.")).unwrap();
    turn.push_reply(second);
    assert!(turn.is_done());
    assert_eq!(turn.messages().len(), 4);
}

#[test]
fn conversation_outgrowing_every_model_fails_the_request() {
    let mut turn = Turn::new("short question").unwrap();
    let huge_answer = "words upon words upon words ".repeat(7000);
    let reply = assemble(&answer_fragments(&huge_answer)).unwrap();
    turn.push_reply(reply);
    assert_eq!(turn.build_request(Vec::new()).unwrap_err(), TurnError::NoModelFits);
}

#[test]
fn functions_are_attached_only_when_present() {
    let (functions, _) = Functions::load(vec![weather_provider(true)], Vec::new()).unwrap();
    let raws = vec!["{\"name\":\"get_current_weather\"}".to_string()];
    let results = functions.specifications(&raws);
    let specs = collect_specifications(&results).unwrap();
    let turn = Turn::new("hello").unwrap();
    let request = turn.build_request(specs).unwrap();
    let attached = request.functions.expect("one provider must attach its specification");
    assert_eq!(attached.len(), 1);
    assert_eq!(attached[0].name, "get_current_weather");
}

#[test]
fn request_aggregation_fails_on_the_first_bad_specification() {
    let (functions, _) = Functions::load(vec![weather_provider(true)], Vec::new()).unwrap();
    let raws = vec!["broken".to_string()];
    let results = functions.specifications(&raws);
    assert_eq!(collect_specifications(&results).unwrap_err(), SpecParseError::NotJson);
}
