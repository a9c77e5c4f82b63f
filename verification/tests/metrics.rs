use manager::k8s::{
    AllocatableInput, Allocatable, Error, Metrics, NodeInput, NodeMetricsInput, NodeStatusInput,
    ReadQuantity, Usage, K8s,
};
use std::collections::HashMap;

fn q(text: &str, value: Option<u64>) -> ReadQuantity<u64> {
    ReadQuantity { received: text.to_string(), value }
}

fn usage(name: Option<&str>, cpu: u64, memory: u64) -> NodeMetricsInput<u64, u64> {
    NodeMetricsInput {
        name: name.map(|n| n.to_string()),
        cpu: q("c", Some(cpu)),
        memory: q("m", Some(memory)),
    }
}

fn node(name: Option<&str>, cpu: Option<u64>, memory: Option<u64>) -> NodeInput<u64, u64> {
    NodeInput {
        name: name.map(|n| n.to_string()),
        status: Some(NodeStatusInput {
            allocatable: Some(AllocatableInput {
                cpu: cpu.map(|c| q("c", Some(c))),
                memory: memory.map(|m| q("m", Some(m))),
            }),
        }),
    }
}

fn collect(
    metrics: Vec<NodeMetricsInput<u64, u64>>,
    nodes: Vec<NodeInput<u64, u64>>,
) -> Result<HashMap<String, Metrics<u64, u64>>, Error> {
    K8s::new().get_k8s_metrics(&metrics, &nodes).map(|v| v.into_iter().collect())
}

#[test]
fn usage_and_allocatable_are_joined_by_node_name() {
    let m = collect(
        vec![usage(Some("n1"), 1, 2), usage(Some("n2"), 3, 4)],
        vec![node(Some("n2"), Some(30), Some(40))],
    )
    .unwrap();
    assert_eq!(m.len(), 2);
    assert_eq!(m["n1"], Metrics { usage: Some(Usage { cpu: 1, memory: 2 }), allocatable: None });
    assert_eq!(
        m["n2"],
        Metrics {
            usage: Some(Usage { cpu: 3, memory: 4 }),
            allocatable: Some(Allocatable { cpu: 30, memory: 40 })
        }
    );
}

#[test]
fn later_usage_replaces_earlier() {
    let m = collect(vec![usage(Some("n1"), 1, 2), usage(Some("n1"), 5, 6)], vec![]).unwrap();
    assert_eq!(m.len(), 1);
    assert_eq!(m["n1"].usage, Some(Usage { cpu: 5, memory: 6 }));
}

#[test]
fn missing_names_are_refused() {
    assert_eq!(collect(vec![usage(None, 1, 2)], vec![]).unwrap_err(), Error::MissingKey("metadata:name"));
    assert_eq!(
        collect(vec![usage(Some("n1"), 1, 2)], vec![node(None, Some(1), Some(1))]).unwrap_err(),
        Error::MissingKey("metadata:name")
    );
}

#[test]
fn node_without_usage_is_refused() {
    assert_eq!(
        collect(vec![usage(Some("n1"), 1, 2)], vec![node(Some("n9"), Some(1), Some(1))]).unwrap_err(),
        Error::MissingKey("metadata:name")
    );
}

#[test]
fn missing_status_parts_are_refused() {
    let no_status = NodeInput { name: Some("n1".to_string()), status: None };
    assert_eq!(collect(vec![usage(Some("n1"), 1, 2)], vec![no_status]).unwrap_err(), Error::MissingKey("status"));
    let no_alloc = NodeInput { name: Some("n1".to_string()), status: Some(NodeStatusInput { allocatable: None }) };
    assert_eq!(collect(vec![usage(Some("n1"), 1, 2)], vec![no_alloc]).unwrap_err(), Error::MissingKey("allocatable"));
    assert_eq!(
        collect(vec![usage(Some("n1"), 1, 2)], vec![node(Some("n1"), None, Some(1))]).unwrap_err(),
        Error::MissingKey("cpu")
    );
    assert_eq!(
        collect(vec![usage(Some("n1"), 1, 2)], vec![node(Some("n1"), Some(1), None)]).unwrap_err(),
        Error::MissingKey("memory")
    );
}

#[test]
fn unreadable_quantities_are_refused_in_order() {
    let bad = NodeMetricsInput { name: Some("n1".to_string()), cpu: q("1x", None), memory: q("2y", None) };
    assert_eq!(collect(vec![bad], vec![]).unwrap_err(), Error::QuantityParsing("1x".to_string()));
    let bad_mem = NodeMetricsInput { name: Some("n1".to_string()), cpu: q("1", Some(1)), memory: q("2y", None) };
    assert_eq!(collect(vec![bad_mem], vec![]).unwrap_err(), Error::QuantityParsing("2y".to_string()));
    // a quantity error comes before the lookup of the node's usage
    let bad_node = NodeInput {
        name: Some("n9".to_string()),
        status: Some(NodeStatusInput {
            allocatable: Some(AllocatableInput { cpu: Some(q("zz", None)), memory: Some(q("1", Some(1))) }),
        }),
    };
    assert_eq!(
        collect(vec![usage(Some("n1"), 1, 2)], vec![bad_node]).unwrap_err(),
        Error::QuantityParsing("zz".to_string())
    );
}

#[test]
fn first_error_wins() {
    assert_eq!(
        collect(vec![usage(None, 1, 2)], vec![NodeInput { name: None, status: None }]).unwrap_err(),
        Error::MissingKey("metadata:name")
    );
}

#[test]
fn empty_cluster_has_no_metrics() {
    assert!(collect(vec![], vec![]).unwrap().is_empty());
}
