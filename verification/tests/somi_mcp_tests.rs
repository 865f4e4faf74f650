use tiny_decision_core::mcp::{
    export_standalone_mcp_server, generate_mcp_tool_from_template, mcp_tool_description, mcp_tool_name,
    output_schema_plan, tool_name_from_lowercase, McpServerInfo, SchemaKind,
};
use tiny_decision_core::types::QuestionType;
use tiny_decision_core::somi::{
    auto_routed_version, auto_router_id, bearer_authorization, best_adapter_index, jev_decide_url,
    plan_answers, AdaptedLlmAdapter, AutoRouterAdapter, ChoiceOption, SomiError, JevHostedAdapter, LocalGgufAdapter, LocalOnnxAdapter,
    TypedQuestion,
};

fn ids(v: &[&str]) -> Vec<String> {
    v.iter().map(|s| s.to_string()).collect()
}

fn questions() -> Vec<TypedQuestion> {
    vec![
        TypedQuestion::Choice {
            id: "intent".to_string(),
            text: "What is the intent?".to_string(),
            options: vec![ChoiceOption { id: "buy".to_string() }, ChoiceOption { id: "sell".to_string() }],
        },
        TypedQuestion::Noul { id: "urgent".to_string(), text: "Is it urgent?".to_string() },
        TypedQuestion::Score { id: "risk".to_string(), text: "Risk score".to_string() },
    ]
}

#[test]
fn local_adapters_keep_their_ids() {
    let g = LocalGgufAdapter::new("phi-2".to_string(), "/m/phi.gguf".to_string());
    assert_eq!(g.adapter_id(), "phi-2");
    assert_eq!(g.model_path, "/m/phi.gguf");
    assert_eq!(g.context_size, 4096);
    assert!(g.n_threads >= 1);
    assert!(g.is_native());
    let o = LocalOnnxAdapter::new("bert".to_string(), "/m/bert.onnx".to_string());
    assert_eq!(o.adapter_id(), "bert");
    assert!(o.is_native());
}

#[test]
fn adapted_llm_grammar() {
    let a = AdaptedLlmAdapter::new("llama".to_string(), "http://localhost:8080".to_string(), None);
    assert_eq!(a.adapter_id(), "llama");
    assert!(!a.is_native());
    let expected = [
        "root ::= \"{\\\"answers\\\":[\" answer (\",\" answer)* \"]}\"\n",
        "answer ::= choice_ans | noul_ans | score_ans\n",
        "choice_ans ::= \"{\\\"type\\\":\\\"Choice\\\",\\\"value\\\":\\\"\" [a-zA-Z0-9_-]+ \"\\\"}\"\n",
        "noul_ans ::= \"{\\\"type\\\":\\\"Noul\\\",\\\"value\\\":(\"true\"|\"false\")}\"\n",
        "score_ans ::= \"{\\\"type\\\":\\\"Score\\\",\\\"value\\\":\" [0-9]+ (\".\" [0-9]+)? \"}\"\n",
    ]
    .concat();
    assert_eq!(a.build_gbnf_grammar(&questions()), expected);
}

#[test]
fn jev_urls_drop_trailing_slashes() {
    assert_eq!(jev_decide_url("https://api.jev.ai"), "https://api.jev.ai/somi/v1/decide");
    assert_eq!(jev_decide_url("https://api.jev.ai//"), "https://api.jev.ai/somi/v1/decide");
    assert_eq!(jev_decide_url(""), "/somi/v1/decide");
    assert_eq!(bearer_authorization("k1"), "Bearer k1");
    let j = JevHostedAdapter::new("https://h/".to_string(), "sk".to_string(), "jev-1".to_string());
    assert_eq!(j.adapter_id(), "jev-1");
    assert!(j.is_native());
    assert_eq!(j.decide_url(), "https://h/somi/v1/decide");
    assert_eq!(j.authorization(), "Bearer sk");
}

#[test]
fn router_prefers_first_native_adapter() {
    assert_eq!(best_adapter_index(&ids(&["llm", "gguf", "onnx"]), &[false, true, true]), Some(1));
    assert_eq!(best_adapter_index(&ids(&["llm1", "llm2"]), &[false, false]), Some(0));
    assert_eq!(best_adapter_index(&[], &[]), None);
}

#[test]
fn router_uses_last_record_of_a_repeated_id() {
    // The second "m" overrides the first record: "m" is tracked as not native.
    assert_eq!(best_adapter_index(&ids(&["m", "x", "m"]), &[true, false, false]), Some(0));
    assert_eq!(best_adapter_index(&ids(&["m", "x", "m"]), &[false, true, true]), Some(0));
}

#[test]
fn auto_router_adapter() {
    let r = AutoRouterAdapter::new(ids(&["llm", "gguf"]), vec![false, true]);
    assert_eq!(r.select_best_adapter(), Some(1));
    assert_eq!(r.adapter_id(), "auto-best-of-loaded");
    assert_eq!(auto_router_id(), "auto-best-of-loaded");
    assert!(r.is_native());
    assert_eq!(AutoRouterAdapter::new(vec![], vec![]).select_best_adapter(), None);
    assert_eq!(auto_routed_version("gguf"), "auto-routed:gguf");
}

#[test]
fn tool_names() {
    assert_eq!(tool_name_from_lowercase("loan triage-v2"), "decide_loan_triage_v2");
    assert_eq!(mcp_tool_name("Loan Triage-V2"), "decide_loan_triage_v2");
    assert_eq!(mcp_tool_name("ÉTAT"), "decide_état");
    assert_eq!(mcp_tool_description("Loan Triage"), "Executes typed decision template: Loan Triage");
}

#[test]
fn output_schema_has_one_property_per_question_then_confidence() {
    let qs = questions();
    let plan = output_schema_plan(&qs);
    assert_eq!(plan.properties.len(), 4);
    assert_eq!(plan.required, ids(&["intent", "urgent", "risk", "confidence"]));
    assert_eq!(plan.properties[0].name, "intent");
    assert_eq!(plan.properties[0].description, "What is the intent?");
    assert!(matches!(&plan.properties[0].kind, SchemaKind::StringEnum(opts) if *opts == ids(&["buy", "sell"])));
    assert!(matches!(plan.properties[1].kind, SchemaKind::Boolean));
    assert!(matches!(plan.properties[2].kind, SchemaKind::ScoreNumber(2)));
    assert_eq!(plan.properties[3].name, "confidence");
    assert!(matches!(plan.properties[3].kind, SchemaKind::Confidence));
    assert_eq!(plan.properties[3].description, "Post-calibrated confidence score");
}

#[test]
fn tool_from_template() {
    let t = generate_mcp_tool_from_template("Loan Triage", &questions());
    assert_eq!(t.name, "decide_loan_triage");
    assert_eq!(t.description, "Executes typed decision template: Loan Triage");
    assert_eq!(t.output.required.len(), 4);
    let info = McpServerInfo { name: "tiny-decision".to_string(), version: "1.0.0".to_string() };
    assert_eq!(info.version, "1.0.0");
}

#[test]
fn standalone_server_script() {
    let script = export_standalone_mcp_server("decide_x", "Executes typed decision template: X", "{\"type\":\"object\"}");
    assert!(script.starts_with("#!/usr/bin/env node\n// Auto-generated MCP Server for Tiny Decision tool: decide_x\n"));
    assert!(script.contains("{ name: \"tiny-decision-decide_x\", version: \"1.0.0\" },"));
    assert!(script.contains("    name: \"decide_x\",\n    description: \"Executes typed decision template: X\",\n    inputSchema: {\"type\":\"object\"}\n"));
    assert!(script.contains("if (request.params.name !== \"decide_x\") {"));
    assert!(script.ends_with("console.error(\"Tiny Decision MCP stdio server running for decide_x\");\n"));
}

#[test]
fn refund_template_becomes_decide_refund_eligibility() {
    assert_eq!(mcp_tool_name("Refund Eligibility"), "decide_refund_eligibility");
}

#[test]
fn answer_plan_keeps_ids_and_kinds() {
    let plans = plan_answers(&questions()).unwrap();
    assert_eq!(plans.len(), 3);
    assert_eq!(plans[0].question_id, "intent");
    assert_eq!(plans[0].kind, QuestionType::Choice);
    assert_eq!(plans[0].selected_option, Some(0));
    assert_eq!(plans[1].kind, QuestionType::Noul);
    assert_eq!(plans[1].selected_option, None);
    assert_eq!(plans[2].question_id, "risk");
    assert_eq!(plans[2].kind, QuestionType::Score);
    assert!(plan_answers(&[]).unwrap().is_empty());
}

#[test]
fn answer_plan_refuses_first_choice_without_options() {
    let qs = vec![
        TypedQuestion::Noul { id: "n".to_string(), text: "t".to_string() },
        TypedQuestion::Choice { id: "empty1".to_string(), text: "t".to_string(), options: vec![] },
        TypedQuestion::Choice { id: "empty2".to_string(), text: "t".to_string(), options: vec![] },
    ];
    assert!(matches!(plan_answers(&qs), Err(SomiError::MissingChoices(id)) if id == "empty1"));
}

#[test]
fn adapter_model_versions() {
    let g = LocalGgufAdapter::new("a".to_string(), "p".to_string());
    assert_eq!(g.model_version(), "gguf-native-v1");
    let o = LocalOnnxAdapter::new("a".to_string(), "p".to_string());
    assert_eq!(o.model_version(), "onnx-runtime-v1");
    let l = AdaptedLlmAdapter::new("a".to_string(), "u".to_string(), None);
    assert_eq!(l.model_version(), "adapted-llm-constrained-v1");
}
