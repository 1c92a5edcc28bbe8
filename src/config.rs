use vstd::prelude::*;

use crate::error::PlanError;
use crate::json::{Json, JsonValue};
use crate::processable_value::{rendered, ProcessableValue, Variables};

verus! {

/// A plan: the services to build, each under its function name.
#[derive(Debug)]
pub struct ServicePlan {
    pub services: Vec<(String, Service)>,
}

/// One service: where its instances run, its firewall rules, and the extra
/// attributes of its virtual machines.
#[derive(Debug)]
pub struct Service {
    pub instances: Vec<(String, ServiceInstance)>,
    pub firewall: ServiceFirewall,
    pub vm: Vec<(String, ProcessableValue)>,
}

/// The instances of a service in one network zone.
#[derive(Debug)]
pub struct ServiceInstance {
    pub replicas: u32,
    pub project_network: ProcessableValue,
}

/// An inbound rule that other services may use, optionally behind a load balancer.
#[derive(Debug)]
pub struct FirewallExport {
    pub ports: Vec<String>,
    pub name: ProcessableValue,
    pub loadbalancer: Option<FirewallLoadbalancer>,
}

/// An outbound rule towards an external service.
#[derive(Debug)]
pub struct ExternalFirewallRule {
    pub ports: Vec<String>,
    pub service: ProcessableValue,
    pub references: Vec<ProcessableValue>,
}

/// The firewall rules of a service.
#[derive(Debug)]
pub struct ServiceFirewall {
    pub intern: Vec<String>,
    pub export: Vec<FirewallExport>,
    pub import: Vec<ExternalFirewallRule>,
}

/// The load balancer in front of an exported rule.
#[derive(Debug)]
pub struct FirewallLoadbalancer {
    pub name: ProcessableValue,
    pub public_network: ProcessableValue,
    pub health_check: HealthCheck,
}

/// The health check of a load balancer: an existing one, or one to create.
#[derive(Debug)]
pub enum HealthCheck {
    Import { name: ProcessableValue },
    Create(HealthCheckField),
}

/// A health check to create.
#[derive(Debug)]
pub struct HealthCheckField {
    pub name: ProcessableValue,
    pub port: u16,
    pub typ: String,
    pub hostname: String,
    pub ok_codes: Vec<i32>,
    pub drain_codes: Vec<i32>,
    pub user: String,
    pub db_name: String,
    pub query: String,
}

impl HealthCheck {
    /// The value that names this health check.
    pub open spec fn name_value(&self) -> ProcessableValue {
        match self {
            HealthCheck::Import { name } => *name,
            HealthCheck::Create(field) => field.name,
        }
    }

    /// Renders the name of this health check.
    pub fn render(&self, variables: &Variables) -> (r: Result<JsonValue, PlanError>)
        ensures
            match r {
                Ok(j) => rendered(self.name_value(), variables@) == Ok::<Json, PlanError>(j@),
                Err(e) => rendered(self.name_value(), variables@) == Err::<Json, PlanError>(e),
            },
    {
        match self {
            HealthCheck::Import { name } => name.render(variables),
            HealthCheck::Create(field) => field.name.render(variables),
        }
    }
}

} // verus!
