use ellie::json::Json;
use ellie::jsontext::to_compact_text;
use ellie::registry::CallPlan;
use ellie::registry::FunctionResponse;
use ellie::registry::FunctionSpec;
use ellie::registry::Functions;
use ellie::registry::LoadWarning;
use ellie::registry::Provider;
use ellie::registry::SpecParseError;
use ellie::registry::call_outcome;
use ellie::registry::merge;
use ellie::registry::parse_specification;

fn provider(name: &str, safe: bool) -> Provider {
    Provider { name: name.to_string(), command: "true".to_string(), args: Vec::new(), safe }
}

fn override_spec(name: &str) -> FunctionSpec {
    FunctionSpec { name: name.to_string(), description: None, parameters: None }
}

#[test]
fn duplicate_providers_keep_first_and_warn_once() {
    let mut first = provider("x", true);
    first.command = "first-command".to_string();
    let mut second = provider("x", false);
    second.command = "second-command".to_string();
    let (functions, warnings) =
        Functions::load(vec![first, second], vec![override_spec("y")]).unwrap();

    let kept: Vec<&Provider> =
        functions.providers().iter().filter(|p| p.name == "x").collect();
    assert_eq!(kept.len(), 1);
    assert_eq!(kept[0].command, "first-command");
    assert!(kept[0].safe);

    let duplicate_warnings: Vec<&LoadWarning> = warnings
        .iter()
        .filter(|w| matches!(w, LoadWarning::DuplicateProvider { name, count } if name == "x" && *count == 2))
        .collect();
    assert_eq!(duplicate_warnings.len(), 1);

    let orphan_warnings: Vec<&LoadWarning> = warnings
        .iter()
        .filter(|w| matches!(w, LoadWarning::FunctionWithoutProvider { name } if name == "y"))
        .collect();
    assert_eq!(orphan_warnings.len(), 1);
    assert_eq!(warnings.len(), 2);
    // Provider warnings come first, in registry order.
    assert!(matches!(&warnings[0], LoadWarning::DuplicateProvider { .. }));
    assert!(matches!(&warnings[1], LoadWarning::FunctionWithoutProvider { .. }));
}

#[test]
fn providers_are_sorted_by_name() {
    let (functions, warnings) = Functions::load(
        vec![provider("zeta", false), provider("alpha", false), provider("mid", false)],
        Vec::new(),
    )
    .unwrap();
    let names: Vec<&str> = functions.providers().iter().map(|p| p.name.as_str()).collect();
    assert_eq!(names, ["alpha", "mid", "zeta"]);
    assert!(warnings.is_empty());
}

#[test]
fn plain_arguments_survive_expansion_unchanged() {
    let mut p = provider("p", true);
    p.args = vec!["--flag".to_string(), "value with spaces".to_string()];
    let (functions, _) = Functions::load(vec![p], Vec::new()).unwrap();
    assert_eq!(functions.providers()[0].args, ["--flag", "value with spaces"]);
}

#[test]
fn duplicate_overrides_keep_first_and_warn() {
    let mut first = override_spec("f");
    first.description = Some("kept".to_string());
    let mut second = override_spec("f");
    second.description = Some("dropped".to_string());
    let (functions, warnings) =
        Functions::load(vec![provider("f", true)], vec![first, second]).unwrap();
    assert_eq!(functions.functions().len(), 1);
    assert_eq!(functions.functions()[0].description.as_deref(), Some("kept"));
    assert!(warnings.iter().any(
        |w| matches!(w, LoadWarning::DuplicateFunction { name, count } if name == "f" && *count == 2),
    ));
}

#[test]
fn failed_expansion_fails_the_whole_load() {
    let mut p = provider("p", true);
    p.args = vec!["${ELLIE_TEST_SURELY_UNSET_VARIABLE_93471}".to_string()];
    let error = Functions::load(vec![p], Vec::new()).unwrap_err();
    assert_eq!(error.argument, "${ELLIE_TEST_SURELY_UNSET_VARIABLE_93471}");
}

#[test]
fn lookup_by_name() {
    let (functions, _) =
        Functions::load(vec![provider("a", true), provider("b", false)], Vec::new()).unwrap();
    assert_eq!(functions.get_provider("b").unwrap().name, "b");
    assert!(functions.get_provider("c").is_none());
    assert!(functions.get_function("a").is_none());
}

#[test]
fn safe_provider_executes_without_prompt() {
    let (functions, _) = Functions::load(vec![provider("tool", true)], Vec::new()).unwrap();
    assert_eq!(functions.plan_call("tool"), CallPlan::Execute);
}

#[test]
fn unsafe_provider_needs_approval_before_any_launch() {
    let (functions, _) = Functions::load(vec![provider("tool", false)], Vec::new()).unwrap();
    assert_eq!(functions.plan_call("tool"), CallPlan::NeedsApproval);
}

#[test]
fn unknown_provider_is_not_found() {
    let (functions, _) = Functions::load(Vec::new(), Vec::new()).unwrap();
    assert_eq!(functions.plan_call("ghost"), CallPlan::NotFound);
}

#[test]
fn response_text_for_each_outcome() {
    let executed = FunctionResponse::Executed("  {\"temperature\": 72}  ".to_string());
    assert_eq!(executed.response_text(), "{\"temperature\":72}");
    assert_eq!(
        FunctionResponse::Aborted.response_text(),
        "function call aborted: user denied command execution",
    );
    assert_eq!(
        FunctionResponse::NotFound.response_text(),
        "function not found: the requested function is currently unavailable or not implemented yet",
    );
}

#[test]
fn specification_parsing_fixes_the_name() {
    let raw = "{\"name\": \"self_report\", \"description\": \"d\"}";
    let (spec, renamed) = parse_specification("registry_key", raw).unwrap();
    assert!(renamed);
    assert_eq!(spec.name, "registry_key");
    assert_eq!(spec.description.as_deref(), Some("d"));

    let raw_same = "{\"name\": \"registry_key\"}";
    let (spec, renamed) = parse_specification("registry_key", raw_same).unwrap();
    assert!(!renamed);
    assert_eq!(spec.name, "registry_key");
    assert_eq!(spec.description, None);
}

#[test]
fn specification_parsing_rejects_bad_output() {
    assert_eq!(parse_specification("k", "not json").unwrap_err(), SpecParseError::NotJson);
    assert_eq!(parse_specification("k", "[1]").unwrap_err(), SpecParseError::NotAnObject);
    assert_eq!(parse_specification("k", "{}").unwrap_err(), SpecParseError::BadName);
    assert_eq!(
        parse_specification("k", "{\"name\": 3}").unwrap_err(),
        SpecParseError::BadName,
    );
    assert_eq!(
        parse_specification("k", "{\"name\": \"k\", \"description\": 1}").unwrap_err(),
        SpecParseError::BadDescription,
    );
}

#[test]
fn override_merges_onto_reported_specification() {
    let overlay = FunctionSpec {
        name: "w".to_string(),
        description: Some("better words".to_string()),
        parameters: Some(Json::Obj(vec![
            ("b".to_string(), Json::Null),
            ("c".to_string(), Json::Num("3".to_string())),
        ])),
    };
    let (functions, _) = Functions::load(vec![provider("w", true)], vec![overlay]).unwrap();
    let raw = "{\"name\":\"w\",\"description\":\"plain\",\"parameters\":{\"a\":1,\"b\":2}}";
    let (merged, renamed) = functions.merged_specification("w", raw).unwrap();
    assert!(!renamed);
    assert_eq!(merged.name, "w");
    assert_eq!(merged.description.as_deref(), Some("better words"));
    assert_eq!(to_compact_text(merged.parameters.as_ref().unwrap()), "{\"a\":1,\"c\":3}");
}

#[test]
fn one_bad_specification_leaves_the_others_untouched() {
    let (functions, _) =
        Functions::load(vec![provider("a", true), provider("b", true)], Vec::new()).unwrap();
    let raws = vec!["broken".to_string(), "{\"name\":\"b\"}".to_string()];
    let results = functions.specifications(&raws);
    assert_eq!(results.len(), 2);
    assert_eq!(*results[0].as_ref().unwrap_err(), SpecParseError::NotJson);
    let (spec, renamed) = results[1].as_ref().unwrap();
    assert_eq!(spec.name, "b");
    assert!(!renamed);
}

#[test]
fn specifications_come_one_per_provider_in_registry_order() {
    let (functions, _) =
        Functions::load(vec![provider("b", true), provider("a", true)], Vec::new()).unwrap();
    // Registry order is sorted by name: "a" first.
    let raws = vec!["{\"name\":\"a\"}".to_string(), "{\"name\":\"b\"}".to_string()];
    let results = functions.specifications(&raws);
    assert_eq!(results.len(), 2);
    assert_eq!(results[0].as_ref().unwrap().0.name, "a");
    assert_eq!(results[1].as_ref().unwrap().0.name, "b");
}

#[test]
fn call_outcome_follows_plan_and_consent() {
    let ran = call_outcome(CallPlan::Execute, false, Some("out".to_string()));
    assert!(matches!(ran, FunctionResponse::Executed(text) if text == "out"));
    let consented = call_outcome(CallPlan::NeedsApproval, true, Some("out".to_string()));
    assert!(matches!(consented, FunctionResponse::Executed(text) if text == "out"));
    let denied = call_outcome(CallPlan::NeedsApproval, false, None);
    assert!(matches!(denied, FunctionResponse::Aborted));
    let unknown = call_outcome(CallPlan::NotFound, false, None);
    assert!(matches!(unknown, FunctionResponse::NotFound));
}

#[test]
fn merge_respects_patch_semantics() {
    let mut base = FunctionSpec {
        name: "keep".to_string(),
        description: Some("old".to_string()),
        parameters: None,
    };
    let patch = FunctionSpec {
        name: "ignored".to_string(),
        description: None,
        parameters: Some(Json::Bool(true)),
    };
    merge(&mut base, &patch);
    assert_eq!(base.name, "keep");
    assert_eq!(base.description.as_deref(), Some("old"));
    assert!(matches!(base.parameters, Some(Json::Bool(true))));
}
