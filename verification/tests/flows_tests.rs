use claw_browser::flows::{
    flow_file_name, iso_of, node_output_file_name, node_output_from_file, node_output_from_text, now_iso, now_ts, sort_flows, stamp_flow,
    AgentFlow, FlowNode, FlowRuntimeState, FlowStatus, NodePosition, NodeStatus,
};
use claw_browser::json::JsonValue;

fn node(id: &str) -> FlowNode {
    FlowNode {
        id: id.to_string(),
        node_type: "agent".to_string(),
        agent_work: None,
        label: id.to_string(),
        position: NodePosition { x: serde_json::Number::from(1), y: serde_json::Number::from(2) },
    }
}

fn flow(id: &str, updated: &str, nodes: Vec<FlowNode>) -> AgentFlow {
    AgentFlow {
        id: id.to_string(),
        name: format!("name-{}", id),
        description: None,
        nodes,
        edges: vec![],
        version: 3,
        created_at: "100".to_string(),
        updated_at: updated.to_string(),
    }
}

#[test]
fn stamping_new_and_known_flows() {
    let f = stamp_flow(flow("", "0", vec![]), 11, 12, 13);
    assert_eq!(f.id, "flow-11");
    assert_eq!(f.created_at, "12");
    assert_eq!(f.updated_at, "13");
    assert_eq!(f.version, 1);
    let g = stamp_flow(flow("flow-1", "0", vec![]), 11, 12, 13);
    assert_eq!(g.id, "flow-1");
    assert_eq!(g.created_at, "100");
    assert_eq!(g.updated_at, "13");
    assert_eq!(g.version, 4);
    assert_eq!(g.name, "name-flow-1");
}

#[test]
fn clock_values() {
    let t = now_ts();
    assert!(t > 1_600_000_000);
    let s = now_iso();
    assert!(s.chars().all(|c| c.is_ascii_digit()));
    assert_eq!(iso_of(0), "0");
    assert_eq!(iso_of(1_700_000_123), "1700000123");
}

#[test]
fn file_names() {
    assert_eq!(flow_file_name("flow-1"), "flow-1.json");
    assert_eq!(node_output_file_name("n1"), "n1.json");
}

#[test]
fn flows_sorted_newest_first_stably() {
    let fs = vec![flow("a", "10", vec![]), flow("b", "30", vec![]), flow("c", "10", vec![]), flow("d", "20", vec![])];
    let ids: Vec<String> = sort_flows(fs).iter().map(|f| f.id.clone()).collect();
    assert_eq!(ids, vec!["b", "d", "a", "c"]);
    assert!(sort_flows(vec![]).is_empty());
}

#[test]
fn outputs_read_after_write() {
    let mut st = FlowRuntimeState::new();
    assert!(st.get_node_output("n1").is_none());
    let text = st.set_node_output("n1", JsonValue::Str("hi".to_string()));
    assert_eq!(text, "\"hi\"");
    st.set_node_output("n2", JsonValue::Bool(true));
    st.set_node_output("n1", JsonValue::Null);
    assert!(matches!(st.get_node_output("n1"), Some(JsonValue::Null)));
    assert!(matches!(st.get_node_output("n2"), Some(JsonValue::Bool(true))));
    assert_eq!(st.context.len(), 2);
}

#[test]
fn pretty_output_text() {
    let mut st = FlowRuntimeState::new();
    let v = JsonValue::Object(vec![("a".to_string(), JsonValue::Array(vec![JsonValue::Number(serde_json::Number::from(1))]))]);
    assert_eq!(st.set_node_output("n", v), "{\n  \"a\": [\n    1\n  ]\n}");
}

#[test]
fn init_clears_outputs_and_idles_nodes() {
    let mut st = FlowRuntimeState::new();
    st.set_node_output("x", JsonValue::Null);
    let f = flow("flow-9", "1", vec![node("n1"), node("n2"), node("n1")]);
    let e = st.init_flow_execution(&f, 5, 6);
    assert!(st.context.is_empty());
    assert_eq!(e.id, "exec-5");
    assert_eq!(e.flow_id, "flow-9");
    assert!(e.status == FlowStatus::Running);
    assert_eq!(e.started_at, 6);
    assert_eq!(e.finished_at, None);
    assert!(e.logs.is_empty());
    let ids: Vec<String> = e.node_executions.iter().map(|(k, _)| k.clone()).collect();
    assert_eq!(ids, vec!["n1", "n2"]);
    assert!(e.node_executions.iter().all(|(_, n)| n.status == NodeStatus::Idle && n.started_at.is_none()));
    assert_eq!(st.get_flow_execution().unwrap().id, "exec-5");
}

#[test]
fn node_status_updates() {
    let mut st = FlowRuntimeState::new();
    assert_eq!(
        st.update_node_status("n1", NodeStatus::Running, None, 1),
        Err("没有正在运行的 Flow".to_string())
    );
    st.init_flow_execution(&flow("f", "1", vec![node("n1"), node("n2")]), 1, 1);
    assert_eq!(st.update_node_status("n1", NodeStatus::Running, None, 7), Ok(()));
    assert_eq!(st.update_node_status("n1", NodeStatus::Failed, Some("bad".to_string()), 9), Ok(()));
    assert_eq!(st.update_node_status("zz", NodeStatus::Running, None, 9), Ok(()));
    let e = st.get_flow_execution().unwrap();
    let n1 = &e.node_executions[0].1;
    assert!(n1.status == NodeStatus::Failed);
    assert_eq!(n1.error, Some("bad".to_string()));
    assert_eq!(n1.started_at, Some(7));
    assert_eq!(n1.finished_at, Some(9));
    assert!(e.node_executions[1].1.status == NodeStatus::Idle);
    assert_eq!(e.node_executions.len(), 2);
}

#[test]
fn paused_status_keeps_times() {
    let mut st = FlowRuntimeState::new();
    st.init_flow_execution(&flow("f", "1", vec![node("n1")]), 1, 1);
    st.update_node_status("n1", NodeStatus::Paused, None, 4).unwrap();
    let e = st.get_flow_execution().unwrap();
    assert!(e.node_executions[0].1.status == NodeStatus::Paused);
    assert_eq!(e.node_executions[0].1.started_at, None);
    assert_eq!(e.node_executions[0].1.finished_at, None);
}

#[test]
fn logs_are_stamped_and_bounded() {
    let mut st = FlowRuntimeState::new();
    assert_eq!(st.append_flow_log("x", 1), Err("没有正在运行的 Flow".to_string()));
    st.init_flow_execution(&flow("f", "1", vec![]), 1, 1);
    st.append_flow_log("start", 42).unwrap();
    assert_eq!(st.get_flow_execution().unwrap().logs, vec!["[42] start".to_string()]);
    for i in 0..1000u64 {
        st.append_flow_log(&format!("m{}", i), i).unwrap();
    }
    let logs = st.get_flow_execution().unwrap().logs;
    assert_eq!(logs.len(), 901);
    assert_eq!(logs[0], "[99] m99");
    assert_eq!(logs[900], "[999] m999");
    assert!(logs.len() <= 1000);
}

#[test]
fn finishing() {
    let mut st = FlowRuntimeState::new();
    assert_eq!(st.finish_flow_execution(FlowStatus::Completed, 3), Ok(()));
    assert!(st.get_flow_execution().is_none());
    st.init_flow_execution(&flow("f", "1", vec![]), 1, 1);
    st.finish_flow_execution(FlowStatus::Failed, 8).unwrap();
    let e = st.get_flow_execution().unwrap();
    assert!(e.status == FlowStatus::Failed);
    assert_eq!(e.finished_at, Some(8));
}

#[test]
fn persisted_output_reads_back_after_clearing() {
    let mut st = FlowRuntimeState::new();
    let v = JsonValue::Object(vec![("a".to_string(), JsonValue::Array(vec![JsonValue::Number(serde_json::Number::from(7))]))]);
    let text = st.set_node_output("n", v);
    let f = flow("flow-1", "1", vec![node("n")]);
    st.init_flow_execution(&f, 1, 2);
    assert!(st.get_node_output("n").is_none());
    match node_output_from_file(Some(Ok(text))) {
        Ok(Some(JsonValue::Object(o))) => {
            assert_eq!(o.len(), 1);
            assert_eq!(o[0].0, "a");
            assert!(matches!(&o[0].1, JsonValue::Array(a) if a.len() == 1 && matches!(&a[0], JsonValue::Number(n) if n.as_u64() == Some(7))));
        },
        _ => panic!("the written output did not read back"),
    }
}

#[test]
fn node_output_file_cases() {
    assert!(matches!(node_output_from_file(None), Ok(None)));
    assert!(matches!(node_output_from_file(Some(Err("denied".to_string()))), Err(e) if e == "denied"));
    assert!(matches!(node_output_from_file(Some(Ok("{oops".to_string()))), Err(_)));
    assert!(matches!(node_output_from_text("true"), Ok(JsonValue::Bool(true))));
    assert!(node_output_from_text("").is_err());
}
