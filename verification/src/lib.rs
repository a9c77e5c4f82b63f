//! Verified core of a fog-computing function marketplace: sealed-bid
//! auctions, latency averages and medians, routing decisions between fog nodes,
//! the node's view of its neighbourhood and the parsing of resource
//! quantities reported by Kubernetes.
pub mod config;
pub mod faas;
pub mod faas_routing_table;
pub mod flurry_map;
pub mod ids;
pub mod iot;
pub mod k8s;
pub mod map_updates;
pub mod market_auction;
pub mod market_service;
pub mod median;
pub mod net;
pub mod node_situation;
pub mod node_view;
pub mod routing;
pub mod routing_types;
