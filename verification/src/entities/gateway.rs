//! Snapshots of Gateway API resources: gateways, listeners and routes.

use std::collections::BTreeMap;
use vstd::prelude::*;

use crate::entities::common::{EventInfo, OwnerRefInfo};

verus! {

/// One gateway, summarized for listing.
#[derive(Debug, Clone)]
pub struct GatewayInfo {
    pub name: String,
    pub namespace: String,
    pub gateway_class: String,
    pub addresses: String,
    pub listeners: i32,
    pub age: String,
}

/// The full detail view of one gateway.
#[derive(Debug, Clone)]
pub struct GatewayDetailInfo {
    pub name: String,
    pub namespace: String,
    pub created: String,
    pub labels: BTreeMap<String, String>,
    pub annotations: BTreeMap<String, String>,
    pub finalizers: Vec<String>,
    pub controlled_by: Vec<OwnerRefInfo>,
    pub gateway_class: String,
    pub addresses: Vec<GatewayAddressInfo>,
    pub listeners: Vec<GatewayListenerInfo>,
    pub conditions: Vec<GatewayConditionInfo>,
    pub http_routes: Vec<RouteInfo>,
    pub grpc_routes: Vec<RouteInfo>,
    pub events: Vec<EventInfo>,
}

/// One address assigned to a gateway.
#[derive(Debug, Clone)]
pub struct GatewayAddressInfo {
    pub address_type: String,
    pub value: String,
}

/// One listener of a gateway.
#[derive(Debug, Clone)]
pub struct GatewayListenerInfo {
    pub name: String,
    pub protocol: String,
    pub port: i32,
    pub hostname: String,
    pub tls_mode: String,
    pub tls_certificate_refs: Vec<String>,
    pub allowed_routes: String,
    pub attached_routes: i32,
    pub conditions: Vec<GatewayConditionInfo>,
}

/// One status condition of a gateway or listener.
#[derive(Debug, Clone)]
pub struct GatewayConditionInfo {
    pub condition_type: String,
    pub status: String,
    pub reason: String,
    pub message: String,
}

/// One route, summarized for a gateway's detail view.
#[derive(Debug, Clone)]
pub struct RouteInfo {
    pub name: String,
    pub namespace: String,
    pub hostnames: Vec<String>,
    pub age: String,
}

/// One parent reference of a route.
#[derive(Debug, Clone)]
pub struct RouteParentRefInfo {
    pub group: String,
    pub kind: String,
    pub name: String,
    pub namespace: String,
    pub section_name: String,
}

/// The full detail view of one HTTP route.
#[derive(Debug, Clone)]
pub struct HTTPRouteDetailInfo {
    pub name: String,
    pub namespace: String,
    pub created: String,
    pub labels: BTreeMap<String, String>,
    pub annotations: BTreeMap<String, String>,
    pub controlled_by: Vec<OwnerRefInfo>,
    pub parent_refs: Vec<RouteParentRefInfo>,
    pub hostnames: Vec<String>,
    pub rules: Vec<HTTPRouteRuleInfo>,
    pub conditions: Vec<GatewayConditionInfo>,
    pub events: Vec<EventInfo>,
}

/// One rule of an HTTP route.
#[derive(Debug, Clone)]
pub struct HTTPRouteRuleInfo {
    pub matches: Vec<HTTPRouteMatchInfo>,
    pub backend_refs: Vec<RouteBackendRefInfo>,
    pub filters: Vec<String>,
}

/// One match clause of an HTTP route rule.
#[derive(Debug, Clone)]
pub struct HTTPRouteMatchInfo {
    pub path_type: String,
    pub path_value: String,
    pub method: String,
    pub headers: Vec<String>,
}

/// One backend reference of a route rule.
#[derive(Debug, Clone)]
pub struct RouteBackendRefInfo {
    pub kind: String,
    pub name: String,
    pub port: i32,
    pub weight: i32,
}

/// The full detail view of one gRPC route.
#[derive(Debug, Clone)]
pub struct GRPCRouteDetailInfo {
    pub name: String,
    pub namespace: String,
    pub created: String,
    pub labels: BTreeMap<String, String>,
    pub annotations: BTreeMap<String, String>,
    pub controlled_by: Vec<OwnerRefInfo>,
    pub parent_refs: Vec<RouteParentRefInfo>,
    pub hostnames: Vec<String>,
    pub rules: Vec<GRPCRouteRuleInfo>,
    pub conditions: Vec<GatewayConditionInfo>,
    pub events: Vec<EventInfo>,
}

/// One rule of a gRPC route.
#[derive(Debug, Clone)]
pub struct GRPCRouteRuleInfo {
    pub matches: Vec<GRPCRouteMatchInfo>,
    pub backend_refs: Vec<RouteBackendRefInfo>,
}

/// One match clause of a gRPC route rule.
#[derive(Debug, Clone)]
pub struct GRPCRouteMatchInfo {
    pub method_service: String,
    pub method_method: String,
    pub match_type: String,
    pub headers: Vec<String>,
}

} // verus!
