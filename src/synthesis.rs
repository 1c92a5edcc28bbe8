//! What a service plan yields: the drafts of each service and of the whole plan,
//! stated over models, and the laws that hold of them.

use vstd::prelude::*;

use crate::config::{ExternalFirewallRule, FirewallExport, Service, ServiceInstance, ServicePlan};
use crate::draft::{drafts_of, Change, DraftModel, ObjectDraft};
use crate::error::{PlanError, PlanFault};
use crate::json::Json;
use crate::processable_value::{rendered, ProcessableValue};
use crate::text::two_digits;

verus! {

/// The configuration of a processor: where the plan is applied, and the variables
/// that its templates see.
pub struct ProcessorConfig {
    pub project: Option<Seq<char>>,
    pub subproject: Option<Seq<char>>,
    pub environment: Option<Seq<char>>,
    pub variables: Map<Seq<char>, Seq<char>>,
}

/// The text of an optional string.
pub open spec fn opt_text(o: Option<String>) -> Option<Seq<char>> {
    match o {
        Some(s) => Some(s@),
        None => None,
    }
}

/// The text of an optional string, empty when there is none.
pub open spec fn or_empty(o: Option<Seq<char>>) -> Seq<char> {
    match o {
        Some(s) => s,
        None => Seq::empty(),
    }
}

/// Sets `field` to `value` when there is a value.
pub open spec fn set_if_present(field: Seq<char>, value: Option<Seq<char>>) -> Seq<Change> {
    match value {
        Some(v) => seq![Change::Assign(field, Json::Str(v))],
        None => Seq::empty(),
    }
}

/// The attributes that mark an object as part of a service of this configuration.
pub open spec fn stamp(c: ProcessorConfig, function: Seq<char>) -> Seq<Change> {
    set_if_present("project"@, c.project) + set_if_present("subproject"@, c.subproject)
        + set_if_present("environment"@, c.environment) + seq![
        Change::Assign("function"@, Json::Str(function)),
    ]
}

/// The first changes of every object: its hostname, then its stamp.
pub open spec fn base_changes(c: ProcessorConfig, hostname: Seq<char>, function: Seq<char>) -> Seq<
    Change,
> {
    seq![Change::Assign("hostname"@, Json::Str(hostname))] + stamp(c, function)
}

/// A draft of `servertype` named `hostname` with the base changes alone.
pub open spec fn base_draft(
    c: ProcessorConfig,
    servertype: Seq<char>,
    hostname: Seq<char>,
    function: Seq<char>,
) -> DraftModel {
    DraftModel {
        servertype,
        hostname,
        changes: base_changes(c, hostname, function),
        ip_network: None,
        deferred: Seq::empty(),
    }
}

/// The hostname of instance `i` (counted from zero) of `function` in `zone`.
pub open spec fn vm_hostname(c: ProcessorConfig, zone: Seq<char>, function: Seq<char>, i: nat) -> Seq<
    char,
> {
    zone + "-"@ + match c.subproject {
        Some(s) => s + "-"@,
        None => Seq::empty(),
    } + match c.environment {
        Some(e) => if e == "production"@ {
            Seq::empty()
        } else {
            e + "-"@
        },
        None => Seq::empty(),
    } + function + two_digits(i + 1) + "."@ + or_empty(c.project) + ".ig.local"@
}

/// The hostname of the group that opens the ports among the instances of `function`.
pub open spec fn intern_sg_hostname(c: ProcessorConfig, function: Seq<char>) -> Seq<char> {
    or_empty(c.subproject) + "-"@ + or_empty(c.environment) + "-"@ + function + "-intern."@
        + or_empty(c.project) + ".sg"@
}

/// The hostname of the group of clients of the external service `service`.
pub open spec fn import_sg_hostname(c: ProcessorConfig, service: Seq<char>) -> Seq<char> {
    or_empty(c.subproject) + "-"@ + or_empty(c.environment) + "-"@ + service + "-clients."@
        + or_empty(c.project) + ".sg"@
}

/// Adds each port to `field`, in order.
pub open spec fn port_adds(field: Seq<char>, ports: Seq<String>) -> Seq<Change> {
    Seq::new(ports.len(), |k: int| Change::Append(field, Json::Str(ports[k]@)))
}

/// Adds each of the first `n` ports both as inbound and as outbound port, port by port.
pub open spec fn port_pairs(ports: Seq<String>, n: int) -> Seq<Change>
    decreases n,
{
    if n <= 0 || n > ports.len() {
        Seq::empty()
    } else {
        port_pairs(ports, n - 1) + seq![
            Change::Append("protocol_ports_inbound"@, Json::Str(ports[n - 1]@)),
            Change::Append("protocol_ports_outbound"@, Json::Str(ports[n - 1]@)),
        ]
    }
}

/// The group that lets the instances of `function` reach each other on the intern ports.
pub open spec fn intern_sg(c: ProcessorConfig, function: Seq<char>, ports: Seq<String>) -> DraftModel {
    let h = intern_sg_hostname(c, function);
    DraftModel {
        changes: base_changes(c, h, function) + seq![
            Change::Append("sg_allow_from"@, Json::Str(h)),
            Change::Append("sg_allow_to"@, Json::Str(h)),
        ],
        deferred: port_pairs(ports, ports.len() as int),
        ..base_draft(c, "service_group"@, h, function)
    }
}

/// Where the name of an exported rule sits in a plan.
pub open spec fn export_name_path(function: Seq<char>) -> Seq<char> {
    "services."@ + function + ".firewall.export.[*].name"@
}

/// Where the name of a load balancer sits in a plan.
pub open spec fn lb_name_path(function: Seq<char>) -> Seq<char> {
    "services."@ + function + ".firewall.export.[*].loadbalancer.name"@
}

/// Where the public network of a load balancer sits in a plan.
pub open spec fn lb_network_path(function: Seq<char>) -> Seq<char> {
    "services."@ + function + ".firewall.export.[*].loadbalancer.public_network"@
}

/// Where the network of the instances in a zone sits in a plan.
pub open spec fn project_network_path(function: Seq<char>, zone: Seq<char>) -> Seq<char> {
    "services."@ + function + ".instances."@ + zone + ".project_network"@
}

/// The group of an exported rule: named by its rendered name, which has to be a
/// string, and opening its ports inbound.
pub open spec fn export_sg(
    c: ProcessorConfig,
    function: Seq<char>,
    export: FirewallExport,
    vars: Map<Seq<char>, Seq<char>>,
) -> Result<DraftModel, PlanFault> {
    match rendered(export.name, vars) {
        Err(e) => Err(e@),
        Ok(Json::Str(h)) => Ok(
            DraftModel {
                changes: base_changes(c, h, function) + port_adds(
                    "protocol_ports_inbound"@,
                    export.ports@,
                ),
                ..base_draft(c, "service_group"@, h, function)
            },
        ),
        Ok(_) => Err(PlanFault::NotAString(export_name_path(function))),
    }
}

/// What rendering the first `n` of `items` yields, in order: the first failure,
/// or every result.
pub open spec fn rendered_list(
    items: Seq<ProcessableValue>,
    vars: Map<Seq<char>, Seq<char>>,
    n: int,
) -> Result<Seq<Json>, PlanError>
    decreases n,
{
    if n <= 0 || n > items.len() {
        Ok(Seq::empty())
    } else {
        match rendered_list(items, vars, n - 1) {
            Err(e) => Err(e),
            Ok(acc) => match rendered(items[n - 1], vars) {
                Err(e) => Err(e),
                Ok(j) => Ok(acc.push(j)),
            },
        }
    }
}

/// The group of the clients of an external service: it opens the rule's ports
/// outbound, and, once every draft exists, allows traffic to each reference.
pub open spec fn import_sg(
    c: ProcessorConfig,
    function: Seq<char>,
    rule: ExternalFirewallRule,
    vars: Map<Seq<char>, Seq<char>>,
) -> Result<DraftModel, PlanFault> {
    match rendered(rule.service, vars) {
        Err(e) => Err(e@),
        Ok(j) => {
            let h = import_sg_hostname(
                c,
                match j {
                    Json::Str(s) => s,
                    _ => Seq::empty(),
                },
            );
            match rendered_list(rule.references@, vars, rule.references@.len() as int) {
                Err(e) => Err(e@),
                Ok(refs) => Ok(
                    DraftModel {
                        changes: base_changes(c, h, function) + port_adds(
                            "protocol_ports_outbound"@,
                            rule.ports@,
                        ),
                        deferred: Seq::new(
                            refs.len(),
                            |k: int| Change::Append("sg_allow_to"@, refs[k]),
                        ),
                        ..base_draft(c, "service_group"@, h, function)
                    },
                ),
            }
        },
    }
}

/// The fixed policy of every load balancer.
pub open spec fn lb_policy() -> Seq<Change> {
    seq![
        Change::Assign("min_nodes"@, Json::Int(1)),
        Change::Assign("min_nodes_action"@, Json::Str("force_down"@)),
        Change::Assign("symmetric_nat"@, Json::Bool(false)),
    ]
}

/// The load balancer of an exported rule, if it has one: named by its rendered
/// name, checked by its health check, with its address from its public network,
/// and linked to the rule's group once every draft exists.
pub open spec fn loadbalancer(
    c: ProcessorConfig,
    function: Seq<char>,
    export: FirewallExport,
    vars: Map<Seq<char>, Seq<char>>,
) -> Result<Option<DraftModel>, PlanFault> {
    match export.loadbalancer {
        None => Ok(None),
        Some(lb) => match rendered(export.name, vars) {
            Err(e) => Err(e@),
            Ok(group) => match rendered(lb.name, vars) {
                Err(e) => Err(e@),
                Ok(Json::Str(h)) => match rendered(lb.health_check.name_value(), vars) {
                    Err(e) => Err(e@),
                    Ok(check) => match rendered(lb.public_network, vars) {
                        Err(e) => Err(e@),
                        Ok(Json::Str(net)) => Ok(
                            Some(
                                DraftModel {
                                    changes: base_changes(c, h, function) + seq![
                                        Change::Append("health_checks"@, check),
                                    ] + lb_policy(),
                                    ip_network: Some(net),
                                    deferred: seq![Change::Append("service_groups"@, group)],
                                    ..base_draft(c, "loadbalancer"@, h, function)
                                },
                            ),
                        ),
                        Ok(_) => Err(PlanFault::NotAString(lb_network_path(function))),
                    },
                },
                Ok(_) => Err(PlanFault::NotAString(lb_name_path(function))),
            },
        },
    }
}

/// The changes that the first `n` extra attributes make to a virtual machine: an
/// array is added element by element, any other value is set.
pub open spec fn attribute_changes(
    vm: Seq<(String, ProcessableValue)>,
    vars: Map<Seq<char>, Seq<char>>,
    n: int,
) -> Result<Seq<Change>, PlanError>
    decreases n,
{
    if n <= 0 || n > vm.len() {
        Ok(Seq::empty())
    } else {
        match attribute_changes(vm, vars, n - 1) {
            Err(e) => Err(e),
            Ok(acc) => match rendered(vm[n - 1].1, vars) {
                Err(e) => Err(e),
                Ok(Json::Array(items)) => Ok(
                    acc + Seq::new(items.len(), |k: int| Change::Append(vm[n - 1].0@, items[k])),
                ),
                Ok(j) => Ok(acc.push(Change::Assign(vm[n - 1].0@, j))),
            },
        }
    }
}

/// Instance `i` of `function` in `zone`, on `network`.
pub open spec fn vm_draft(
    c: ProcessorConfig,
    zone: Seq<char>,
    function: Seq<char>,
    i: nat,
    network: Seq<char>,
    attributes: Seq<Change>,
) -> DraftModel {
    let h = vm_hostname(c, zone, function, i);
    DraftModel {
        servertype: "vm"@,
        hostname: h,
        changes: seq![Change::Assign("hostname"@, Json::Str(h))] + attributes + stamp(c, function),
        ip_network: Some(network),
        deferred: Seq::empty(),
    }
}

/// The virtual machines of a service in one zone, one per replica.
pub open spec fn zone_vms(
    c: ProcessorConfig,
    function: Seq<char>,
    service: Service,
    zone: Seq<char>,
    instance: ServiceInstance,
    vars: Map<Seq<char>, Seq<char>>,
) -> Result<Seq<DraftModel>, PlanFault> {
    match rendered(instance.project_network, vars) {
        Err(e) => Err(e@),
        Ok(Json::Str(net)) => if instance.replicas == 0 {
            Ok(Seq::empty())
        } else {
            match attribute_changes(service.vm@, vars, service.vm@.len() as int) {
                Err(e) => Err(e@),
                Ok(attrs) => Ok(
                    Seq::new(
                        instance.replicas as nat,
                        |i: int| vm_draft(c, zone, function, i as nat, net, attrs),
                    ),
                ),
            }
        },
        Ok(_) => Err(PlanFault::NotAString(project_network_path(function, zone))),
    }
}

/// What building the drafts for the first `n` of `s` yields, element by element
/// in order: the first failure, or all drafts.
pub open spec fn gather<A>(
    s: Seq<A>,
    step: spec_fn(A) -> Result<Seq<DraftModel>, PlanFault>,
    n: int,
) -> Result<Seq<DraftModel>, PlanFault>
    decreases n,
{
    if n <= 0 || n > s.len() {
        Ok(Seq::empty())
    } else {
        match gather(s, step, n - 1) {
            Err(e) => Err(e),
            Ok(acc) => match step(s[n - 1]) {
                Err(e) => Err(e),
                Ok(more) => Ok(acc + more),
            },
        }
    }
}

/// Once a prefix fails, every longer prefix fails the same way.
pub(crate) proof fn lemma_gather_failure_persists<A>(
    s: Seq<A>,
    step: spec_fn(A) -> Result<Seq<DraftModel>, PlanFault>,
    n: int,
    m: int,
)
    requires
        0 <= n <= m <= s.len(),
        gather(s, step, n) is Err,
    ensures
        gather(s, step, m) == gather(s, step, n),
    decreases m - n,
{
    if m > n {
        lemma_gather_failure_persists(s, step, n, m - 1);
    }
}

/// Once a prefix of a list fails to render, every longer prefix fails the same way.
pub(crate) proof fn lemma_list_failure_persists(
    items: Seq<ProcessableValue>,
    vars: Map<Seq<char>, Seq<char>>,
    n: int,
    m: int,
)
    requires
        0 <= n <= m <= items.len(),
        rendered_list(items, vars, n) is Err,
    ensures
        rendered_list(items, vars, m) == rendered_list(items, vars, n),
    decreases m - n,
{
    if m > n {
        lemma_list_failure_persists(items, vars, n, m - 1);
    }
}

/// Once a prefix of the attributes fails to render, every longer prefix fails the same way.
pub(crate) proof fn lemma_attributes_failure_persists(
    vm: Seq<(String, ProcessableValue)>,
    vars: Map<Seq<char>, Seq<char>>,
    n: int,
    m: int,
)
    requires
        0 <= n <= m <= vm.len(),
        attribute_changes(vm, vars, n) is Err,
    ensures
        attribute_changes(vm, vars, m) == attribute_changes(vm, vars, n),
    decreases m - n,
{
    if m > n {
        lemma_attributes_failure_persists(vm, vars, n, m - 1);
    }
}

/// One step of [`gather`] that builds a single draft.
pub open spec fn single(r: Result<DraftModel, PlanFault>) -> Result<Seq<DraftModel>, PlanFault> {
    match r {
        Ok(d) => Ok(seq![d]),
        Err(e) => Err(e),
    }
}

/// The variables that the templates of the service of `function` see.
pub open spec fn service_vars(c: ProcessorConfig, function: Seq<char>) -> Map<Seq<char>, Seq<char>> {
    c.variables.insert("function"@, function)
}

/// Builds the virtual machines of one zone of the service.
pub open spec fn zone_step(c: ProcessorConfig, function: Seq<char>, service: Service) -> spec_fn(
    (String, ServiceInstance),
) -> Result<Seq<DraftModel>, PlanFault> {
    |z: (String, ServiceInstance)|
        zone_vms(c, function, service, z.0@, z.1, service_vars(c, function))
}

/// Builds the group of one exported rule.
pub open spec fn export_step(c: ProcessorConfig, function: Seq<char>) -> spec_fn(FirewallExport) -> Result<
    Seq<DraftModel>,
    PlanFault,
> {
    |e: FirewallExport| single(export_sg(c, function, e, service_vars(c, function)))
}

/// Builds the group of one imported rule.
pub open spec fn import_step(c: ProcessorConfig, function: Seq<char>) -> spec_fn(
    ExternalFirewallRule,
) -> Result<Seq<DraftModel>, PlanFault> {
    |r: ExternalFirewallRule| single(import_sg(c, function, r, service_vars(c, function)))
}

/// Builds the load balancer of one exported rule, if it has one.
pub open spec fn lb_step(c: ProcessorConfig, function: Seq<char>) -> spec_fn(FirewallExport) -> Result<
    Seq<DraftModel>,
    PlanFault,
> {
    |e: FirewallExport|
        match loadbalancer(c, function, e, service_vars(c, function)) {
            Ok(Some(d)) => Ok(seq![d]),
            Ok(None) => Ok(Seq::empty()),
            Err(e) => Err(e),
        }
}

/// The virtual machines of a service, zone by zone.
pub open spec fn service_vms(c: ProcessorConfig, function: Seq<char>, service: Service) -> Result<
    Seq<DraftModel>,
    PlanFault,
> {
    gather(service.instances@, zone_step(c, function, service), service.instances@.len() as int)
}

/// The groups of a service: one per exported rule, one per imported rule, then
/// the intern group.
pub open spec fn service_groups(c: ProcessorConfig, function: Seq<char>, service: Service) -> Result<
    Seq<DraftModel>,
    PlanFault,
> {
    match gather(service.firewall.export@, export_step(c, function), service.firewall.export@.len() as int) {
        Err(e) => Err(e),
        Ok(exports) => match gather(
            service.firewall.import@,
            import_step(c, function),
            service.firewall.import@.len() as int,
        ) {
            Err(e) => Err(e),
            Ok(imports) => Ok(exports + imports + seq![intern_sg(c, function, service.firewall.intern@)]),
        },
    }
}

/// The load balancers of a service, one per exported rule that has one.
pub open spec fn service_lbs(c: ProcessorConfig, function: Seq<char>, service: Service) -> Result<
    Seq<DraftModel>,
    PlanFault,
> {
    gather(service.firewall.export@, lb_step(c, function), service.firewall.export@.len() as int)
}

/// The links of a virtual machine to the groups and load balancers of its service.
pub open spec fn vm_links(groups: Seq<DraftModel>, lbs: Seq<DraftModel>) -> Seq<Change> {
    Seq::new(groups.len(), |k: int| Change::Append("service_groups"@, Json::Str(groups[k].hostname)))
        + Seq::new(lbs.len(), |k: int| Change::Append("loadbalancer"@, Json::Str(lbs[k].hostname)))
}

/// A virtual machine with its links deferred.
pub open spec fn linked_vm(d: DraftModel, groups: Seq<DraftModel>, lbs: Seq<DraftModel>) -> DraftModel {
    DraftModel { deferred: d.deferred + vm_links(groups, lbs), ..d }
}

/// All drafts of a service: its virtual machines, linked to its groups and load
/// balancers, then the groups, then the load balancers.
pub open spec fn service_drafts(c: ProcessorConfig, function: Seq<char>, service: Service) -> Result<
    Seq<DraftModel>,
    PlanFault,
> {
    match service_vms(c, function, service) {
        Err(e) => Err(e),
        Ok(vms) => match service_groups(c, function, service) {
            Err(e) => Err(e),
            Ok(groups) => match service_lbs(c, function, service) {
                Err(e) => Err(e),
                Ok(lbs) => Ok(
                    Seq::new(vms.len(), |k: int| linked_vm(vms[k], groups, lbs)) + groups + lbs,
                ),
            },
        },
    }
}

/// Builds the drafts of one service of a plan.
pub open spec fn plan_step(c: ProcessorConfig) -> spec_fn((String, Service)) -> Result<
    Seq<DraftModel>,
    PlanFault,
> {
    |s: (String, Service)| service_drafts(c, s.0@, s.1)
}

/// All drafts of a plan, service by service.
pub open spec fn plan_drafts(c: ProcessorConfig, plan: ServicePlan) -> Result<Seq<DraftModel>, PlanFault> {
    gather(plan.services@, plan_step(c), plan.services@.len() as int)
}

/// The number of replicas in the first `n` zones.
pub open spec fn replica_total(instances: Seq<(String, ServiceInstance)>, n: int) -> nat
    decreases n,
{
    if n <= 0 || n > instances.len() {
        0
    } else {
        replica_total(instances, n - 1) + instances[n - 1].1.replicas as nat
    }
}

/// The first `n` zones yield one virtual machine per replica.
proof fn lemma_vm_count(c: ProcessorConfig, function: Seq<char>, service: Service, n: int)
    requires
        0 <= n <= service.instances@.len(),
        gather(service.instances@, zone_step(c, function, service), n) is Ok,
    ensures
        gather(service.instances@, zone_step(c, function, service), n)->Ok_0.len() == replica_total(
            service.instances@,
            n,
        ),
        forall|k: int|
            0 <= k < gather(service.instances@, zone_step(c, function, service), n)->Ok_0.len()
                ==> (#[trigger] gather(service.instances@, zone_step(c, function, service), n)->Ok_0[k]).servertype
                == "vm"@,
    decreases n,
{
    if n > 0 {
        lemma_vm_count(c, function, service, n - 1);
        let acc = gather(service.instances@, zone_step(c, function, service), n - 1)->Ok_0;
        let more = zone_step(c, function, service)(service.instances@[n - 1])->Ok_0;
        let all = gather(service.instances@, zone_step(c, function, service), n)->Ok_0;
        assert(all == acc + more);
        assert forall|k: int| 0 <= k < all.len() implies (#[trigger] all[k]).servertype == "vm"@ by {
            if k >= acc.len() {
                assert(all[k] == more[k - acc.len()]);
            }
        }
    }
}

/// A step that yields one draft each time yields one per element.
proof fn lemma_single_count<A>(s: Seq<A>, step: spec_fn(A) -> Result<Seq<DraftModel>, PlanFault>, n: int)
    requires
        0 <= n <= s.len(),
        gather(s, step, n) is Ok,
        forall|a: A| #[trigger] step(a) is Ok ==> step(a)->Ok_0.len() == 1,
    ensures
        gather(s, step, n)->Ok_0.len() == n,
    decreases n,
{
    if n > 0 {
        lemma_single_count(s, step, n - 1);
    }
}

/// The number of the first `n` exported rules that have a load balancer.
pub open spec fn balanced_exports(exports: Seq<FirewallExport>, n: int) -> nat
    decreases n,
{
    if n <= 0 || n > exports.len() {
        0
    } else {
        balanced_exports(exports, n - 1) + if exports[n - 1].loadbalancer is Some {
            1nat
        } else {
            0nat
        }
    }
}

/// The first `n` exported rules yield one load balancer per rule that has one.
proof fn lemma_lb_count(c: ProcessorConfig, function: Seq<char>, exports: Seq<FirewallExport>, n: int)
    requires
        0 <= n <= exports.len(),
        gather(exports, lb_step(c, function), n) is Ok,
    ensures
        gather(exports, lb_step(c, function), n)->Ok_0.len() == balanced_exports(exports, n),
    decreases n,
{
    if n > 0 {
        lemma_lb_count(c, function, exports, n - 1);
    }
}

/// A service that builds yields one virtual machine per replica over all its
/// zones, one group per exported and per imported rule plus its intern group,
/// and one load balancer per exported rule that has one, in that order; and every
/// virtual machine is linked to every group and every load balancer of its
/// service.
pub proof fn law_service_shape(c: ProcessorConfig, function: Seq<char>, service: Service)
    requires
        service_drafts(c, function, service) is Ok,
    ensures
        ({
            let all = service_drafts(c, function, service)->Ok_0;
            let vms = service_vms(c, function, service)->Ok_0;
            let groups = service_groups(c, function, service)->Ok_0;
            let lbs = service_lbs(c, function, service)->Ok_0;
            &&& vms.len() == replica_total(service.instances@, service.instances@.len() as int)
            &&& groups.len() == service.firewall.export@.len() + service.firewall.import@.len() + 1
            &&& lbs.len() == balanced_exports(
                service.firewall.export@,
                service.firewall.export@.len() as int,
            )
            &&& all.len() == vms.len() + groups.len() + lbs.len()
            &&& forall|k: int| 0 <= k < vms.len() ==> (#[trigger] all[k]).servertype == "vm"@
            &&& forall|j: int| 0 <= j < groups.len() ==> all[vms.len() + j] == #[trigger] groups[j]
            &&& forall|j: int|
                0 <= j < lbs.len() ==> all[vms.len() + groups.len() + j] == #[trigger] lbs[j]
            &&& forall|k: int, j: int|
                0 <= k < vms.len() && 0 <= j < groups.len() ==> (#[trigger] all[k]).deferred.contains(
                    Change::Append("service_groups"@, Json::Str(#[trigger] groups[j].hostname)),
                )
            &&& forall|k: int, j: int|
                0 <= k < vms.len() && 0 <= j < lbs.len() ==> (#[trigger] all[k]).deferred.contains(
                    Change::Append("loadbalancer"@, Json::Str(#[trigger] lbs[j].hostname)),
                )
        }),
{
    let all = service_drafts(c, function, service)->Ok_0;
    let vms = service_vms(c, function, service)->Ok_0;
    let groups = service_groups(c, function, service)->Ok_0;
    let lbs = service_lbs(c, function, service)->Ok_0;
    lemma_vm_count(c, function, service, service.instances@.len() as int);
    lemma_single_count(
        service.firewall.export@,
        export_step(c, function),
        service.firewall.export@.len() as int,
    );
    lemma_single_count(
        service.firewall.import@,
        import_step(c, function),
        service.firewall.import@.len() as int,
    );
    lemma_lb_count(c, function, service.firewall.export@, service.firewall.export@.len() as int);
    assert forall|k: int, j: int| 0 <= k < vms.len() && 0 <= j < groups.len() implies (#[trigger] all[k]).deferred.contains(
        Change::Append("service_groups"@, Json::Str(#[trigger] groups[j].hostname)),
    ) by {
        let d = all[k].deferred;
        assert(all[k] == linked_vm(vms[k], groups, lbs));
        assert(d[vms[k].deferred.len() + j] == Change::Append(
            "service_groups"@,
            Json::Str(groups[j].hostname),
        ));
    }
    assert forall|k: int, j: int| 0 <= k < vms.len() && 0 <= j < lbs.len() implies (#[trigger] all[k]).deferred.contains(
        Change::Append("loadbalancer"@, Json::Str(#[trigger] lbs[j].hostname)),
    ) by {
        let d = all[k].deferred;
        assert(all[k] == linked_vm(vms[k], groups, lbs));
        assert(d[vms[k].deferred.len() + groups.len() + j] == Change::Append(
            "loadbalancer"@,
            Json::Str(lbs[j].hostname),
        ));
    }
    assert forall|k: int| 0 <= k < vms.len() implies (#[trigger] all[k]).servertype == "vm"@ by {
        assert(all[k] == linked_vm(vms[k], groups, lbs));
    }
    assert forall|j: int| 0 <= j < groups.len() implies all[vms.len() + j] == #[trigger] groups[j] by {}
    assert forall|j: int| 0 <= j < lbs.len() implies all[vms.len() + groups.len() + j] == #[trigger] lbs[j] by {}
}

/// An exported rule with a load balancer yields exactly one load balancer, whose
/// deferred link goes to the hostname of the rule's group and whose policy is
/// fixed whatever the plan says.
pub proof fn law_loadbalancer_of_export(
    c: ProcessorConfig,
    function: Seq<char>,
    export: FirewallExport,
    vars: Map<Seq<char>, Seq<char>>,
)
    requires
        export.loadbalancer is Some,
        export_sg(c, function, export, vars) is Ok,
        loadbalancer(c, function, export, vars) is Ok,
    ensures
        loadbalancer(c, function, export, vars)->Ok_0 matches Some(lb) && lb.servertype
            == "loadbalancer"@ && lb.deferred == seq![
            Change::Append(
                "service_groups"@,
                Json::Str(export_sg(c, function, export, vars)->Ok_0.hostname),
            ),
        ] && lb.changes.subrange(lb.changes.len() - 3, lb.changes.len() as int) == lb_policy(),
{
    let lb = loadbalancer(c, function, export, vars)->Ok_0->Some_0;
    assert(lb.changes.subrange(lb.changes.len() - 3, lb.changes.len() as int) =~= lb_policy());
}

/// Turns a list of drafts under construction into a service's drafts.
pub open spec fn drafts_or_fault(r: Result<Vec<ObjectDraft>, PlanError>) -> Result<
    Seq<DraftModel>,
    PlanFault,
> {
    match r {
        Ok(v) => Ok(drafts_of(v@)),
        Err(e) => Err(e@),
    }
}

/// What a service-level build of one draft yields.
pub open spec fn draft_or_fault(r: Result<ObjectDraft, PlanError>) -> Result<DraftModel, PlanFault> {
    match r {
        Ok(d) => Ok(d@),
        Err(e) => Err(e@),
    }
}

} // verus!
