use tiny_decision_core::pipeline::{
    branch_next, cache_key, classify_node_type, decision_retry_delay_ms, escalation_reason, fresh_entry,
    new_escalation_status, export_pipeline_to_node,
    export_pipeline_to_python, find_default_next_edge, find_node, find_root_node, is_fresh, GraphNode,
    NodeAction, PipelineCache, PipelineEdge, PipelineError, PipelineWalk, WalkStep,
};

fn node(id: &str, node_type: &str) -> GraphNode {
    GraphNode { id: id.to_string(), node_type: node_type.to_string() }
}

fn edge(source: &str, target: &str, handle: Option<&str>) -> PipelineEdge {
    PipelineEdge { source: source.to_string(), target: target.to_string(), source_handle: handle.map(|h| h.to_string()) }
}

#[test]
fn root_is_first_node_without_incoming_edge() {
    let nodes = vec![node("b", "decision"), node("a", "decision"), node("c", "output")];
    let edges = vec![edge("a", "b", None), edge("b", "c", None)];
    assert_eq!(find_root_node(&nodes, &edges), Some(1));
}

#[test]
fn cyclic_graph_has_no_root() {
    let nodes = vec![node("a", "decision"), node("b", "decision")];
    let edges = vec![edge("a", "b", None), edge("b", "a", None)];
    assert_eq!(find_root_node(&nodes, &edges), None);
}

#[test]
fn default_edge_is_the_first_leaving_edge() {
    let edges = vec![edge("x", "y", None), edge("a", "b", None), edge("a", "c", None)];
    assert_eq!(find_default_next_edge("a", &edges), Some("b".to_string()));
    assert_eq!(find_default_next_edge("z", &edges), None);
}

#[test]
fn branch_follows_the_confidence_handle() {
    let edges = vec![
        edge("br", "review", Some("low_confidence")),
        edge("br", "accept", Some("high_confidence")),
    ];
    assert_eq!(branch_next("br", &edges, true), Some("accept".to_string()));
    assert_eq!(branch_next("br", &edges, false), Some("review".to_string()));
    assert_eq!(branch_next("other", &edges, true), None);
}

#[test]
fn branch_takes_an_unlabelled_edge_for_either_branch() {
    let edges = vec![edge("br", "next", None), edge("br", "accept", Some("high_confidence"))];
    assert_eq!(branch_next("br", &edges, true), Some("next".to_string()));
    let only_high = vec![edge("br", "accept", Some("high_confidence"))];
    assert_eq!(branch_next("br", &only_high, false), None);
}

#[test]
fn node_types_accept_both_spellings() {
    assert_eq!(classify_node_type("decision"), NodeAction::Decision);
    assert_eq!(classify_node_type("Decision"), NodeAction::Decision);
    assert_eq!(classify_node_type("branch"), NodeAction::Branch);
    assert_eq!(classify_node_type("HumanEscalation"), NodeAction::HumanEscalation);
    assert_eq!(classify_node_type("shadow"), NodeAction::Shadow);
    assert_eq!(classify_node_type("Cache"), NodeAction::Cache);
    assert_eq!(classify_node_type("output"), NodeAction::Output);
    assert_eq!(classify_node_type("parallel_fanout"), NodeAction::PassThrough);
    assert_eq!(classify_node_type("DECISION"), NodeAction::PassThrough);
}

#[test]
fn find_node_returns_first_match() {
    let nodes = vec![node("a", "x"), node("b", "y"), node("b", "z")];
    assert_eq!(find_node(&nodes, "b"), Some(1));
    assert_eq!(find_node(&nodes, "q"), None);
}

#[test]
fn decision_retries_twice_with_growing_delay() {
    assert_eq!(decision_retry_delay_ms(1), Some(50));
    assert_eq!(decision_retry_delay_ms(2), Some(100));
    assert_eq!(decision_retry_delay_ms(3), None);
    assert_eq!(decision_retry_delay_ms(0), None);
}

#[test]
fn cache_key_joins_node_and_state() {
    assert_eq!(cache_key("n1", "{\"a\":1}"), "n1:{\"a\":1}");
}

#[test]
fn freshness_compares_against_the_ttl() {
    assert!(is_fresh(999_999_999, 1));
    assert!(!is_fresh(1_000_000_000, 1));
    assert!(!is_fresh(0, 0));
}

#[test]
fn cache_gives_back_what_was_set() {
    let mut cache = PipelineCache::new(3600);
    assert_eq!(cache.get("k"), None);
    cache.set("k".to_string(), "{\"x\":1}".to_string());
    cache.set("other".to_string(), "{}".to_string());
    assert_eq!(cache.get("k"), Some("{\"x\":1}".to_string()));
    cache.set("k".to_string(), "{\"x\":2}".to_string());
    assert_eq!(cache.get("k"), Some("{\"x\":2}".to_string()));
    assert_eq!(cache.get("other"), Some("{}".to_string()));
}

#[test]
fn cache_entries_expire_with_zero_ttl() {
    let mut cache = PipelineCache::new(0);
    cache.set("k".to_string(), "v".to_string());
    assert_eq!(cache.get("k"), None);
}

#[test]
fn walk_follows_successors_to_the_output() {
    let nodes = vec![node("start", "decision"), node("mid", "branch"), node("end", "output")];
    let edges = vec![edge("start", "mid", None), edge("mid", "end", None)];
    let mut walk = PipelineWalk::start(&nodes, &edges).unwrap();
    assert_eq!(walk.next_step(&nodes), Ok(WalkStep::Run(0)));
    walk.complete_node(Some("mid".to_string()));
    assert_eq!(walk.next_step(&nodes), Ok(WalkStep::Run(1)));
    walk.complete_node(Some("end".to_string()));
    assert_eq!(walk.next_step(&nodes), Ok(WalkStep::Run(2)));
    walk.complete_node(None);
    assert_eq!(walk.next_step(&nodes), Ok(WalkStep::Finished));
}

#[test]
fn walk_without_root_fails() {
    let nodes = vec![node("a", "decision")];
    let edges = vec![edge("a", "a", None)];
    assert!(matches!(PipelineWalk::start(&nodes, &edges), Err(PipelineError::NoRootNode)));
}

#[test]
fn walk_reports_a_missing_successor() {
    let nodes = vec![node("a", "decision")];
    let mut walk = PipelineWalk::start(&nodes, &[]).unwrap();
    assert_eq!(walk.next_step(&nodes), Ok(WalkStep::Run(0)));
    walk.complete_node(Some("ghost".to_string()));
    assert_eq!(walk.next_step(&nodes), Err(PipelineError::NodeNotFound("ghost".to_string())));
}

#[test]
fn walk_stops_after_three_visits_per_node() {
    let nodes = vec![node("a", "decision"), node("b", "decision")];
    let edges = vec![edge("a", "b", None), edge("b", "b", None)];
    let mut walk = PipelineWalk::start(&nodes, &edges).unwrap();
    let mut runs = 0;
    loop {
        match walk.next_step(&nodes).unwrap() {
            WalkStep::Run(i) => {
                runs += 1;
                walk.complete_node(find_default_next_edge(&nodes[i].id, &edges));
            }
            WalkStep::Finished => break,
        }
    }
    assert_eq!(runs, 6);
}

#[test]
fn python_export_matches_template() {
    let expected = format!(
r#"# Auto-generated by Tiny Decision v1.0.0
# Pipeline: {} (ID: {})
import requests
import json

TINY_DECISION_URL = "http://127.0.0.1:11535/v1/decide"

def run_decision_pipeline(state: dict) -> dict:
    """Executes the {} decision pipeline graph."""
    payload = {{
        "pipeline_id": "{}",
        "state": state
    }}
    resp = requests.post(f"http://127.0.0.1:11535/v1/pipelines/{}/run", json=payload)
    resp.raise_for_status()
    return resp.json()

if __name__ == "__main__":
    sample_state = {{"text": "Sample input decision state"}}
    result = run_decision_pipeline(sample_state)
    print("Decision Result:", json.dumps(result, indent=2))
"#,
        "Loan triage", "p-42", "Loan triage", "p-42", "p-42"
    );
    assert_eq!(export_pipeline_to_python("Loan triage", "p-42"), expected);
}

#[test]
fn node_export_matches_template() {
    let expected = format!(
r#"// Auto-generated by Tiny Decision v1.0.0
// Pipeline: {} (ID: {})

export interface DecisionState {{
  [key: string]: unknown;
}}

export async function runDecisionPipeline(state: DecisionState) {{
  const endpoint = "http://127.0.0.1:11535/v1/pipelines/{}/run";
  const res = await fetch(endpoint, {{
    method: "POST",
    headers: {{ "Content-Type": "application/json" }},
    body: JSON.stringify({{ pipeline_id: "{}", state }}),
  }});
  if (!res.ok) {{
    throw new Error(`Pipeline execution failed: ${{res.statusText}}`);
  }}
  return res.json();
}}

// Example usage:
// runDecisionPipeline({{ text: "Sample input state" }}).then(console.log);
"#,
        "Loan triage", "p-42", "p-42", "p-42"
    );
    assert_eq!(export_pipeline_to_node("Loan triage", "p-42"), expected);
}

#[test]
fn fresh_entries_are_returned_until_they_expire() {
    assert_eq!(fresh_entry("{\"x\":1}", 0, 60), Some("{\"x\":1}".to_string()));
    assert_eq!(fresh_entry("v", 59_999_999_999, 60), Some("v".to_string()));
    assert_eq!(fresh_entry("v", 60_000_000_000, 60), None);
    assert_eq!(fresh_entry("v", 0, 0), None);
}

#[test]
fn escalation_tasks() {
    assert_eq!(escalation_reason(Some("Amount above limit")), "Amount above limit");
    assert_eq!(escalation_reason(None), "Low confidence threshold breached");
    assert_eq!(new_escalation_status(), "pending");
}

#[test]
fn cache_keeps_last_value_across_other_keys() {
    let mut cache = PipelineCache::new(3600);
    cache.set("k".to_string(), "1".to_string());
    cache.set("k".to_string(), "2".to_string());
    cache.set("a".to_string(), "x".to_string());
    cache.set("b".to_string(), "y".to_string());
    assert_eq!(cache.get("k"), Some("2".to_string()));
    assert_eq!(cache.get("never"), None);
    assert_eq!(cache.get("k"), Some("2".to_string()));
}
