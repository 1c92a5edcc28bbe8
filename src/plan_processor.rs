use vstd::prelude::*;
use vstd::string::*;

use crate::config::{ExternalFirewallRule, FirewallExport, Service, ServiceInstance, ServicePlan};
use crate::draft::{changes_of, drafts_of, AttrOp, Change, DraftModel, ObjectDraft};
use crate::error::{PlanError, PlanFault};
use crate::free_ips::{
    address_text, after_allocation, cidr_hosts, next_address, texts, FreeIps, IpPools, PoolModel,
};
use crate::json::{Json, JsonValue};
use crate::processable_value::{rendered, Variables};
use crate::synthesis::{
    attribute_changes, base_changes, base_draft, draft_or_fault, drafts_or_fault, export_sg,
    export_step, gather, import_sg, import_sg_hostname, import_step, intern_sg,
    intern_sg_hostname, lb_policy, lb_step, lemma_attributes_failure_persists,
    lemma_gather_failure_persists, lemma_list_failure_persists, linked_vm, loadbalancer,
    opt_text, or_empty, plan_drafts, plan_step, port_adds, port_pairs, rendered_list,
    service_drafts, service_groups, service_lbs, service_vars, service_vms, set_if_present,
    stamp, vm_draft, vm_hostname, vm_links, zone_step, zone_vms, ProcessorConfig,
};
use crate::text::{push_two_digits, same_text};

verus! {

/// The function that a service is built for.
#[derive(Debug)]
pub struct ProcessorBuildContext {
    pub function: String,
}

impl ProcessorBuildContext {
    /// The variables of the processor, with `function` bound to this context's function.
    pub fn get_render_variables(&self, base: &Variables) -> (r: Variables)
        ensures
            r@ == base@.insert("function"@, self.function@),
    {
        let mut vars = base.clone_bindings();
        vars.insert(String::from_str("function"), self.function.clone());
        vars
    }
}

/// Turns a plan into the drafts of the objects it implies, and hands out the
/// internal addresses of their networks.
#[derive(Debug)]
pub struct ServicePlanProcessor {
    plan: ServicePlan,
    variables: Variables,
    network_ips: IpPools,
    project: Option<String>,
    subproject: Option<String>,
    environment: Option<String>,
}

impl View for ServicePlanProcessor {
    type V = ProcessorConfig;

    closed spec fn view(&self) -> ProcessorConfig {
        ProcessorConfig {
            project: opt_text(self.project),
            subproject: opt_text(self.subproject),
            environment: opt_text(self.environment),
            variables: self.variables@,
        }
    }
}

impl ServicePlanProcessor {
    /// The plan that this processor turns into drafts.
    pub closed spec fn spec_plan(&self) -> ServicePlan {
        self.plan
    }

    /// The address pools of the networks met so far.
    pub closed spec fn pools(&self) -> Map<Seq<char>, PoolModel> {
        self.network_ips@
    }

    /// A processor for `plan`, with nothing configured and no address pool.
    pub fn new(plan: ServicePlan) -> (r: ServicePlanProcessor)
        ensures
            r.spec_plan() == plan,
            r@ == (ProcessorConfig {
                project: None,
                subproject: None,
                environment: None,
                variables: Map::empty(),
            }),
            r.pools() == Map::<Seq<char>, PoolModel>::empty(),
    {
        ServicePlanProcessor {
            plan,
            variables: Variables::new(),
            network_ips: IpPools::new(),
            project: None,
            subproject: None,
            environment: None,
        }
    }

    /// Sets the project, which templates see as `project`.
    pub fn project(&mut self, project: String) -> (r: &mut Self)
        ensures
            (*r)@ == (ProcessorConfig {
                project: Some(project@),
                variables: old(self)@.variables.insert("project"@, project@),
                ..old(self)@
            }),
            (*r).spec_plan() == old(self).spec_plan(),
            (*r).pools() == old(self).pools(),
            *final(self) == *final(r),
    {
        self.variables.insert(String::from_str("project"), project.clone());
        self.project = Some(project);
        self
    }

    /// Sets the subproject, which templates see as `subproject`.
    pub fn subproject(&mut self, subproject: String) -> (r: &mut Self)
        ensures
            (*r)@ == (ProcessorConfig {
                subproject: Some(subproject@),
                variables: old(self)@.variables.insert("subproject"@, subproject@),
                ..old(self)@
            }),
            (*r).spec_plan() == old(self).spec_plan(),
            (*r).pools() == old(self).pools(),
            *final(self) == *final(r),
    {
        self.variables.insert(String::from_str("subproject"), subproject.clone());
        self.subproject = Some(subproject);
        self
    }

    /// Sets the environment, which templates see as `environment`.
    pub fn environment(&mut self, environment: String) -> (r: &mut Self)
        ensures
            (*r)@ == (ProcessorConfig {
                environment: Some(environment@),
                variables: old(self)@.variables.insert("environment"@, environment@),
                ..old(self)@
            }),
            (*r).spec_plan() == old(self).spec_plan(),
            (*r).pools() == old(self).pools(),
            *final(self) == *final(r),
    {
        self.variables.insert(String::from_str("environment"), environment.clone());
        self.environment = Some(environment);
        self
    }

    /// Appends the stamp of `function` to `out`.
    fn push_stamp(&self, out: &mut Vec<AttrOp>, function: &String)
        ensures
            changes_of(final(out)@) == changes_of(old(out)@) + stamp(self@, function@),
    {
        let ghost start = changes_of(out@);
        if let Some(value) = &self.project {
            out.push(AttrOp::Assign(String::from_str("project"), JsonValue::Str(value.clone())));
        }
        assert(changes_of(out@) =~= start + set_if_present("project"@, self@.project));
        let ghost mid = changes_of(out@);
        if let Some(value) = &self.subproject {
            out.push(AttrOp::Assign(String::from_str("subproject"), JsonValue::Str(value.clone())));
        }
        assert(changes_of(out@) =~= mid + set_if_present("subproject"@, self@.subproject));
        let ghost mid2 = changes_of(out@);
        if let Some(value) = &self.environment {
            out.push(AttrOp::Assign(String::from_str("environment"), JsonValue::Str(value.clone())));
        }
        assert(changes_of(out@) =~= mid2 + set_if_present("environment"@, self@.environment));
        let ghost mid3 = changes_of(out@);
        out.push(AttrOp::Assign(String::from_str("function"), JsonValue::Str(function.clone())));
        assert(changes_of(out@) =~= mid3 + seq![Change::Assign("function"@, Json::Str(function@))]);
        assert(changes_of(out@) =~= start + stamp(self@, function@));
    }

    /// A draft of `servertype` named `hostname`, with its hostname and stamp set.
    fn create_base_object(&self, servertype: &str, hostname: &String, function: &String) -> (r:
        ObjectDraft)
        ensures
            r@ == base_draft(self@, servertype@, hostname@, function@),
    {
        let mut changes: Vec<AttrOp> = Vec::new();
        changes.push(AttrOp::Assign(String::from_str("hostname"), JsonValue::Str(hostname.clone())));
        assert(changes_of(changes@) =~= seq![Change::Assign("hostname"@, Json::Str(hostname@))]);
        self.push_stamp(&mut changes, function);
        let r = ObjectDraft {
            servertype: String::from_str(servertype),
            hostname: hostname.clone(),
            changes,
            ip_network: None,
            deferred: Vec::new(),
        };
        assert(changes_of(r.deferred@) =~= Seq::<Change>::empty());
        r
    }

    /// The base draft of a service group.
    fn create_sg_base_object(&self, hostname: &String, function: &String) -> (r: ObjectDraft)
        ensures
            r@ == base_draft(self@, "service_group"@, hostname@, function@),
    {
        self.create_base_object("service_group", hostname, function)
    }

    /// The base draft of a load balancer.
    fn create_lb_base_object(&self, hostname: &String, function: &String) -> (r: ObjectDraft)
        ensures
            r@ == base_draft(self@, "loadbalancer"@, hostname@, function@),
    {
        self.create_base_object("loadbalancer", hostname, function)
    }

    /// The changes that the extra attributes of the service's virtual machines make.
    fn render_vm_attributes(service: &Service, variables: &Variables) -> (r: Result<
        Vec<AttrOp>,
        PlanError,
    >)
        ensures
            match r {
                Ok(v) => attribute_changes(service.vm@, variables@, service.vm@.len() as int) == Ok::<
                    Seq<Change>,
                    PlanError,
                >(changes_of(v@)),
                Err(e) => attribute_changes(service.vm@, variables@, service.vm@.len() as int)
                    == Err::<Seq<Change>, PlanError>(e),
            },
    {
        let attrs = &service.vm;
        let mut out: Vec<AttrOp> = Vec::new();
        let mut i: usize = 0;
        assert(changes_of(out@) =~= Seq::<Change>::empty());
        while i < attrs.len()
            invariant
                i <= attrs@.len(),
                attrs@ == service.vm@,
                attribute_changes(attrs@, variables@, i as int) == Ok::<Seq<Change>, PlanError>(
                    changes_of(out@),
                ),
            decreases attrs@.len() - i,
        {
            let key = &attrs[i].0;
            let ghost start = changes_of(out@);
            match attrs[i].1.render(variables) {
                Ok(JsonValue::Array(items)) => {
                    let mut k: usize = 0;
                    while k < items.len()
                        invariant
                            k <= items@.len(),
                            changes_of(out@) == start + Seq::new(
                                k as nat,
                                |m: int| Change::Append(key@, items@[m]@),
                            ),
                        decreases items@.len() - k,
                    {
                        let ghost before = changes_of(out@);
                        out.push(AttrOp::Append(key.clone(), items[k].duplicate()));
                        assert(changes_of(out@) =~= before.push(Change::Append(key@, items@[k as int]@)));
                        assert(changes_of(out@) =~= start + Seq::new(
                            (k + 1) as nat,
                            |m: int| Change::Append(key@, items@[m]@),
                        ));
                        k = k + 1;
                    }
                    proof {
                        let j = JsonValue::Array(items)@;
                        assert(Seq::new(k as nat, |m: int| Change::Append(key@, items@[m]@)) =~= Seq::new(
                            j->Array_0.len(),
                            |m: int| Change::Append(key@, j->Array_0[m]),
                        ));
                    }
                },
                Ok(j) => {
                    let ghost jv = j@;
                    out.push(AttrOp::Assign(key.clone(), j));
                    assert(changes_of(out@) =~= start.push(Change::Assign(key@, jv)));
                },
                Err(e) => {
                    proof {
                        lemma_attributes_failure_persists(attrs@, variables@, i + 1, attrs@.len() as int);
                    }
                    return Err(e);
                },
            }
            i = i + 1;
        }
        Ok(out)
    }

    /// The draft of the virtual machine `hostname` of the service, with its extra
    /// attributes and its stamp set.
    fn create_vm_base_object(
        &self,
        hostname: &String,
        variables: &Variables,
        service: &Service,
        function: &String,
    ) -> (r: Result<ObjectDraft, PlanError>)
        ensures
            match r {
                Ok(d) => attribute_changes(service.vm@, variables@, service.vm@.len() as int) matches Ok(
                    attrs,
                ) && d@ == (DraftModel {
                    servertype: "vm"@,
                    hostname: hostname@,
                    changes: seq![Change::Assign("hostname"@, Json::Str(hostname@))] + attrs + stamp(
                        self@,
                        function@,
                    ),
                    ip_network: None,
                    deferred: Seq::empty(),
                }),
                Err(e) => attribute_changes(service.vm@, variables@, service.vm@.len() as int)
                    == Err::<Seq<Change>, PlanError>(e),
            },
    {
        let mut changes: Vec<AttrOp> = Vec::new();
        changes.push(AttrOp::Assign(String::from_str("hostname"), JsonValue::Str(hostname.clone())));
        let ghost first = changes_of(changes@);
        let mut attrs = match Self::render_vm_attributes(service, variables) {
            Ok(a) => a,
            Err(e) => return Err(e),
        };
        let ghost rendered_attrs = changes_of(attrs@);
        changes.append(&mut attrs);
        assert(changes_of(changes@) =~= first + rendered_attrs);
        self.push_stamp(&mut changes, function);
        let r = ObjectDraft {
            servertype: String::from_str("vm"),
            hostname: hostname.clone(),
            changes,
            ip_network: None,
            deferred: Vec::new(),
        };
        assert(changes_of(r.deferred@) =~= Seq::<Change>::empty());
        assert(first =~= seq![Change::Assign("hostname"@, Json::Str(hostname@))]);
        Ok(r)
    }

    /// The hostname of instance `i` of `function` in `zone`.
    fn vm_hostname(&self, zone: &String, function: &String, i: u32) -> (r: String)
        ensures
            r@ == vm_hostname(self@, zone@, function@, i as nat),
    {
        let mut hostname = zone.clone();
        hostname.append("-");
        let ghost start = hostname@;
        if let Some(sub) = &self.subproject {
            hostname.append(sub.as_str());
            hostname.append("-");
        }
        assert(hostname@ =~= start + match self@.subproject {
            Some(s) => s + "-"@,
            None => Seq::<char>::empty(),
        });
        let ghost mid = hostname@;
        if let Some(env) = &self.environment {
            if !same_text(env.as_str(), "production") {
                hostname.append(env.as_str());
                hostname.append("-");
            }
        }
        assert(hostname@ =~= mid + match self@.environment {
            Some(e) => if e == "production"@ {
                Seq::<char>::empty()
            } else {
                e + "-"@
            },
            None => Seq::<char>::empty(),
        });
        hostname.append(function.as_str());
        push_two_digits(&mut hostname, i as u64 + 1);
        hostname.append(".");
        push_opt(&mut hostname, &self.project);
        hostname.append(".ig.local");
        assert(hostname@ =~= vm_hostname(self@, zone@, function@, i as nat));
        hostname
    }

    /// The virtual machines of the service in `zone`, one per replica, each with
    /// the network that its internal address comes from.
    fn generate_vms_for_network_zone(
        &self,
        zone: &String,
        instance: &ServiceInstance,
        variables: &Variables,
        service: &Service,
        function: &String,
    ) -> (r: Result<Vec<ObjectDraft>, PlanError>)
        ensures
            drafts_or_fault(r) == zone_vms(self@, function@, *service, zone@, *instance, variables@),
    {
        let network = match instance.project_network.render(variables) {
            Ok(JsonValue::Str(n)) => n,
            Ok(_) => {
                let mut path = service_path(function, ".instances.");
                path.append(zone.as_str());
                path.append(".project_network");
                return Err(PlanError::NotAString(path));
            },
            Err(e) => return Err(e),
        };
        let mut vms: Vec<ObjectDraft> = Vec::new();
        let mut i: u32 = 0;
        while i < instance.replicas
            invariant
                i <= instance.replicas,
                rendered(instance.project_network, variables@) == Ok::<Json, PlanError>(
                    Json::Str(network@),
                ),
                vms@.len() == i,
                i > 0 ==> attribute_changes(service.vm@, variables@, service.vm@.len() as int) is Ok,
                forall|k: int|
                    0 <= k < i ==> #[trigger] vms@[k]@ == vm_draft(
                        self@,
                        zone@,
                        function@,
                        k as nat,
                        network@,
                        attribute_changes(service.vm@, variables@, service.vm@.len() as int)->Ok_0,
                    ),
            decreases instance.replicas - i,
        {
            let hostname = self.vm_hostname(zone, function, i);
            let mut vm = match self.create_vm_base_object(&hostname, variables, service, function) {
                Ok(vm) => vm,
                Err(e) => return Err(e),
            };
            vm.ip_network = Some(network.clone());
            vms.push(vm);
            i = i + 1;
        }
        proof {
            if instance.replicas > 0 {
                let attrs = attribute_changes(service.vm@, variables@, service.vm@.len() as int)->Ok_0;
                assert(drafts_of(vms@) =~= Seq::new(
                    instance.replicas as nat,
                    |k: int| vm_draft(self@, zone@, function@, k as nat, network@, attrs),
                ));
            } else {
                assert(drafts_of(vms@) =~= Seq::<DraftModel>::empty());
            }
        }
        Ok(vms)
    }

    /// Turns the whole plan into drafts, service by service: for each, its
    /// virtual machines linked to its groups and load balancers, then its groups,
    /// then its load balancers. The first failure fails the whole plan.
    pub fn get_unrelational_resources(&self) -> (r: Result<Vec<ObjectDraft>, PlanError>)
        ensures
            drafts_or_fault(r) == plan_drafts(self@, self.spec_plan()),
    {
        let services = &self.plan.services;
        let ghost step = plan_step(self@);
        let mut out: Vec<ObjectDraft> = Vec::new();
        let mut i: usize = 0;
        assert(drafts_of(out@) =~= Seq::<DraftModel>::empty());
        while i < services.len()
            invariant
                i <= services@.len(),
                services@ == self.plan.services@,
                step == plan_step(self@),
                gather(services@, step, i as int) == Ok::<Seq<DraftModel>, PlanFault>(drafts_of(out@)),
            decreases services@.len() - i,
        {
            let entry = &services[i];
            let context = ProcessorBuildContext { function: entry.0.clone() };
            match self.get_unrelational_resource(&entry.1, &context) {
                Ok(mut more) => {
                    let ghost before = drafts_of(out@);
                    let ghost added = drafts_of(more@);
                    out.append(&mut more);
                    assert(drafts_of(out@) =~= before + added);
                },
                Err(e) => {
                    proof {
                        lemma_gather_failure_persists(services@, step, i + 1, services@.len() as int);
                    }
                    return Err(e);
                },
            }
            i = i + 1;
        }
        Ok(out)
    }

    /// All drafts of one service.
    fn get_unrelational_resource(&self, service: &Service, context: &ProcessorBuildContext) -> (r:
        Result<Vec<ObjectDraft>, PlanError>)
        ensures
            drafts_or_fault(r) == service_drafts(self@, context.function@, *service),
    {
        let function = &context.function;
        let variables = context.get_render_variables(&self.variables);
        let mut vms = match self.get_new_vms(service, &variables, function) {
            Ok(v) => v,
            Err(e) => return Err(e),
        };
        let mut groups = match self.get_new_service_groups(service, &variables, function) {
            Ok(g) => g,
            Err(e) => return Err(e),
        };
        let mut lbs = match self.get_new_loadbalancers(service, &variables, function) {
            Ok(l) => l,
            Err(e) => return Err(e),
        };
        let ghost vm0 = drafts_of(vms@);
        let ghost gs = drafts_of(groups@);
        let ghost ls = drafts_of(lbs@);
        let mut k: usize = 0;
        while k < vms.len()
            invariant
                k <= vms@.len(),
                vms@.len() == vm0.len(),
                gs == drafts_of(groups@),
                ls == drafts_of(lbs@),
                forall|j: int| 0 <= j < k ==> #[trigger] vms@[j]@ == linked_vm(vm0[j], gs, ls),
                forall|j: int| k <= j < vms@.len() ==> #[trigger] vms@[j]@ == vm0[j],
            decreases vms@.len() - k,
        {
            link_vm(&mut vms[k], &groups, &lbs);
            k = k + 1;
        }
        let ghost linked = drafts_of(vms@);
        assert(linked =~= Seq::new(vm0.len(), |j: int| linked_vm(vm0[j], gs, ls)));
        vms.append(&mut groups);
        vms.append(&mut lbs);
        assert(drafts_of(vms@) =~= linked + gs + ls);
        Ok(vms)
    }

    /// Hands out the next free address of the network `network_name`, from a pool
    /// that [`ServicePlanProcessor::add_network`] set up.
    pub fn get_free_ip(&mut self, network_name: &str) -> (r: Result<String, PlanError>)
        ensures
            final(self)@ == old(self)@,
            final(self).spec_plan() == old(self).spec_plan(),
            !old(self).pools().contains_key(network_name@) ==> final(self).pools() == old(
                self,
            ).pools() && (r matches Err(PlanError::UnknownNetwork(t)) && t@ == network_name@),
            old(self).pools().contains_key(network_name@) ==> match next_address(
                old(self).pools()[network_name@],
            ) {
                Some(a) => r matches Ok(t) && t@ == address_text(
                    old(self).pools()[network_name@].v6,
                    a,
                ) && final(self).pools() == old(self).pools().insert(
                    network_name@,
                    after_allocation(old(self).pools()[network_name@], a),
                ),
                None => final(self).pools() == old(self).pools() && (r matches Err(
                    PlanError::NoFreeIp(t),
                ) && t@ == network_name@),
            },
    {
        self.network_ips.get_ip(network_name)
    }

    /// Sets up the pool of `network_name` from the network `cidr` and the addresses
    /// already `taken` in it, unless that network has a pool already.
    pub fn add_network(&mut self, network_name: String, cidr: &str, taken: Vec<String>) -> (r: Result<
        (),
        PlanError,
    >)
        ensures
            final(self)@ == old(self)@,
            final(self).spec_plan() == old(self).spec_plan(),
            match cidr_hosts(cidr@) {
                Some((v6, first, last)) => r is Ok && if old(self).pools().contains_key(
                    network_name@,
                ) {
                    final(self).pools() == old(self).pools()
                } else {
                    final(self).pools() == old(self).pools().insert(
                        network_name@,
                        PoolModel { v6, first: first as int, last: last as int, taken: texts(taken@) },
                    )
                },
                None => final(self).pools() == old(self).pools() && (r matches Err(
                    PlanError::InvalidCidr(t),
                ) && t@ == cidr@),
            },
    {
        let pool = match FreeIps::new(cidr, taken) {
            Ok(p) => p,
            Err(e) => return Err(e),
        };
        self.network_ips.add_pool(network_name, pool);
        Ok(())
    }

    /// The virtual machines of the service, zone by zone.
    fn get_new_vms(&self, service: &Service, variables: &Variables, function: &String) -> (r: Result<
        Vec<ObjectDraft>,
        PlanError,
    >)
        requires
            variables@ == service_vars(self@, function@),
        ensures
            drafts_or_fault(r) == service_vms(self@, function@, *service),
    {
        let zones = &service.instances;
        let ghost step = zone_step(self@, function@, *service);
        let mut vms: Vec<ObjectDraft> = Vec::new();
        let mut i: usize = 0;
        assert(drafts_of(vms@) =~= Seq::<DraftModel>::empty());
        while i < zones.len()
            invariant
                i <= zones@.len(),
                zones@ == service.instances@,
                step == zone_step(self@, function@, *service),
                variables@ == service_vars(self@, function@),
                gather(zones@, step, i as int) == Ok::<Seq<DraftModel>, PlanFault>(drafts_of(vms@)),
            decreases zones@.len() - i,
        {
            let zone = &zones[i];
            match self.generate_vms_for_network_zone(&zone.0, &zone.1, variables, service, function) {
                Ok(mut more) => {
                    let ghost before = drafts_of(vms@);
                    let ghost added = drafts_of(more@);
                    vms.append(&mut more);
                    assert(drafts_of(vms@) =~= before + added);
                },
                Err(e) => {
                    proof {
                        lemma_gather_failure_persists(zones@, step, i + 1, zones@.len() as int);
                    }
                    return Err(e);
                },
            }
            i = i + 1;
        }
        Ok(vms)
    }

    /// The groups of the service: one per exported rule, one per imported rule,
    /// then the intern group.
    fn get_new_service_groups(
        &self,
        service: &Service,
        variables: &Variables,
        function: &String,
    ) -> (r: Result<Vec<ObjectDraft>, PlanError>)
        requires
            variables@ == service_vars(self@, function@),
        ensures
            drafts_or_fault(r) == service_groups(self@, function@, *service),
    {
        let exports = &service.firewall.export;
        let ghost estep = export_step(self@, function@);
        let mut groups: Vec<ObjectDraft> = Vec::new();
        let mut i: usize = 0;
        assert(drafts_of(groups@) =~= Seq::<DraftModel>::empty());
        while i < exports.len()
            invariant
                i <= exports@.len(),
                exports@ == service.firewall.export@,
                estep == export_step(self@, function@),
                variables@ == service_vars(self@, function@),
                gather(exports@, estep, i as int) == Ok::<Seq<DraftModel>, PlanFault>(
                    drafts_of(groups@),
                ),
            decreases exports@.len() - i,
        {
            match self.create_export_sg(&exports[i], variables, function) {
                Ok(group) => {
                    let ghost before = drafts_of(groups@);
                    groups.push(group);
                    assert(drafts_of(groups@) =~= before + seq![group@]);
                },
                Err(e) => {
                    proof {
                        lemma_gather_failure_persists(exports@, estep, i + 1, exports@.len() as int);
                    }
                    return Err(e);
                },
            }
            i = i + 1;
        }
        let ghost exported = drafts_of(groups@);
        let imports = &service.firewall.import;
        let ghost istep = import_step(self@, function@);
        let mut clients: Vec<ObjectDraft> = Vec::new();
        let mut i: usize = 0;
        assert(drafts_of(clients@) =~= Seq::<DraftModel>::empty());
        while i < imports.len()
            invariant
                i <= imports@.len(),
                imports@ == service.firewall.import@,
                istep == import_step(self@, function@),
                variables@ == service_vars(self@, function@),
                gather(
                    service.firewall.export@,
                    export_step(self@, function@),
                    service.firewall.export@.len() as int,
                ) == Ok::<Seq<DraftModel>, PlanFault>(exported),
                gather(imports@, istep, i as int) == Ok::<Seq<DraftModel>, PlanFault>(
                    drafts_of(clients@),
                ),
            decreases imports@.len() - i,
        {
            match self.create_import_sg(&imports[i], variables, function) {
                Ok(group) => {
                    let ghost before = drafts_of(clients@);
                    clients.push(group);
                    assert(drafts_of(clients@) =~= before + seq![group@]);
                },
                Err(e) => {
                    proof {
                        lemma_gather_failure_persists(imports@, istep, i + 1, imports@.len() as int);
                    }
                    return Err(e);
                },
            }
            i = i + 1;
        }
        let ghost imported = drafts_of(clients@);
        groups.append(&mut clients);
        let intern = self.create_intern_sg(service, function);
        let ghost intern_model = intern@;
        groups.push(intern);
        assert(drafts_of(groups@) =~= exported + imported + seq![intern_model]);
        Ok(groups)
    }

    /// The load balancers of the service, one per exported rule that has one.
    fn get_new_loadbalancers(
        &self,
        service: &Service,
        variables: &Variables,
        function: &String,
    ) -> (r: Result<Vec<ObjectDraft>, PlanError>)
        requires
            variables@ == service_vars(self@, function@),
        ensures
            drafts_or_fault(r) == service_lbs(self@, function@, *service),
    {
        let exports = &service.firewall.export;
        let ghost step = lb_step(self@, function@);
        let mut lbs: Vec<ObjectDraft> = Vec::new();
        let mut i: usize = 0;
        assert(drafts_of(lbs@) =~= Seq::<DraftModel>::empty());
        while i < exports.len()
            invariant
                i <= exports@.len(),
                exports@ == service.firewall.export@,
                step == lb_step(self@, function@),
                variables@ == service_vars(self@, function@),
                gather(exports@, step, i as int) == Ok::<Seq<DraftModel>, PlanFault>(drafts_of(lbs@)),
            decreases exports@.len() - i,
        {
            match self.create_loadbalancer(&exports[i], variables, function) {
                Ok(Some(lb)) => {
                    let ghost before = drafts_of(lbs@);
                    lbs.push(lb);
                    assert(drafts_of(lbs@) =~= before + seq![lb@]);
                },
                Ok(None) => {
                    assert(drafts_of(lbs@) =~= drafts_of(lbs@) + Seq::<DraftModel>::empty());
                },
                Err(e) => {
                    proof {
                        lemma_gather_failure_persists(exports@, step, i + 1, exports@.len() as int);
                    }
                    return Err(e);
                },
            }
            i = i + 1;
        }
        Ok(lbs)
    }

    /// The group of an exported rule.
    fn create_export_sg(&self, export: &FirewallExport, variables: &Variables, function: &String) -> (r:
        Result<ObjectDraft, PlanError>)
        ensures
            draft_or_fault(r) == export_sg(self@, function@, *export, variables@),
    {
        let hostname = match export.name.render(variables) {
            Ok(JsonValue::Str(h)) => h,
            Ok(_) => {
                return Err(
                    PlanError::NotAString(service_path(function, ".firewall.export.[*].name")),
                );
            },
            Err(e) => return Err(e),
        };
        let mut group = self.create_sg_base_object(&hostname, function);
        push_ports(&mut group.changes, "protocol_ports_inbound", &export.ports);
        Ok(group)
    }

    /// The group of the clients of an external service.
    fn create_import_sg(
        &self,
        import: &ExternalFirewallRule,
        variables: &Variables,
        function: &String,
    ) -> (r: Result<ObjectDraft, PlanError>)
        ensures
            draft_or_fault(r) == import_sg(self@, function@, *import, variables@),
    {
        let service = match import.service.render(variables) {
            Ok(JsonValue::Str(name)) => name,
            Ok(_) => String::new(),
            Err(e) => return Err(e),
        };
        let mut hostname = String::new();
        push_opt(&mut hostname, &self.subproject);
        hostname.append("-");
        push_opt(&mut hostname, &self.environment);
        hostname.append("-");
        hostname.append(service.as_str());
        hostname.append("-clients.");
        push_opt(&mut hostname, &self.project);
        hostname.append(".sg");
        assert(hostname@ =~= import_sg_hostname(
            self@,
            match rendered(import.service, variables@)->Ok_0 {
                Json::Str(s) => s,
                _ => Seq::empty(),
            },
        ));
        let mut group = self.create_sg_base_object(&hostname, function);
        push_ports(&mut group.changes, "protocol_ports_outbound", &import.ports);
        let refs = &import.references;
        let mut i: usize = 0;
        assert(changes_of(group.deferred@) =~= Seq::<Change>::empty());
        while i < refs.len()
            invariant
                i <= refs@.len(),
                rendered(import.service, variables@) is Ok,
                refs@ == import.references@,
                rendered_list(refs@, variables@, i as int) matches Ok(done) && changes_of(
                    group.deferred@,
                ) == Seq::new(done.len(), |k: int| Change::Append("sg_allow_to"@, done[k])),
                group.servertype@ == "service_group"@,
                group.hostname@ == hostname@,
                group.ip_network is None,
                changes_of(group.changes@) == base_changes(self@, hostname@, function@) + port_adds(
                    "protocol_ports_outbound"@,
                    import.ports@,
                ),
            decreases refs@.len() - i,
        {
            let ghost before = rendered_list(refs@, variables@, i as int)->Ok_0;
            match refs[i].render(variables) {
                Ok(j) => {
                    let ghost queued = changes_of(group.deferred@);
                    let ghost jv = j@;
                    group.deferred.push(AttrOp::Append(String::from_str("sg_allow_to"), j));
                    assert(changes_of(group.deferred@) =~= queued.push(
                        Change::Append("sg_allow_to"@, jv),
                    ));
                    assert(rendered_list(refs@, variables@, i + 1) == Ok::<Seq<Json>, PlanError>(
                        before.push(jv),
                    ));
                    assert(changes_of(group.deferred@) =~= Seq::new(
                        before.push(jv).len(),
                        |k: int| Change::Append("sg_allow_to"@, before.push(jv)[k]),
                    ));
                },
                Err(e) => {
                    proof {
                        assert(rendered_list(refs@, variables@, i + 1) == Err::<Seq<Json>, PlanError>(
                            e,
                        ));
                        lemma_list_failure_persists(refs@, variables@, i + 1, refs@.len() as int);
                    }
                    return Err(e);
                },
            }
            i = i + 1;
        }
        Ok(group)
    }

    /// The load balancer of an exported rule, if it has one.
    fn create_loadbalancer(
        &self,
        firewall_export: &FirewallExport,
        variables: &Variables,
        function: &String,
    ) -> (r: Result<Option<ObjectDraft>, PlanError>)
        ensures
            match r {
                Ok(Some(d)) => loadbalancer(self@, function@, *firewall_export, variables@) == Ok::<
                    Option<DraftModel>,
                    PlanFault,
                >(Some(d@)),
                Ok(None) => loadbalancer(self@, function@, *firewall_export, variables@) == Ok::<
                    Option<DraftModel>,
                    PlanFault,
                >(None),
                Err(e) => loadbalancer(self@, function@, *firewall_export, variables@) == Err::<
                    Option<DraftModel>,
                    PlanFault,
                >(e@),
            },
    {
        let lb = match &firewall_export.loadbalancer {
            Some(lb) => lb,
            None => return Ok(None),
        };
        let group = match firewall_export.name.render(variables) {
            Ok(j) => j,
            Err(e) => return Err(e),
        };
        let hostname = match lb.name.render(variables) {
            Ok(JsonValue::Str(h)) => h,
            Ok(_) => {
                return Err(
                    PlanError::NotAString(
                        service_path(function, ".firewall.export.[*].loadbalancer.name"),
                    ),
                );
            },
            Err(e) => return Err(e),
        };
        let check = match lb.health_check.render(variables) {
            Ok(j) => j,
            Err(e) => return Err(e),
        };
        let network = match lb.public_network.render(variables) {
            Ok(JsonValue::Str(n)) => n,
            Ok(_) => {
                return Err(
                    PlanError::NotAString(
                        service_path(function, ".firewall.export.[*].loadbalancer.public_network"),
                    ),
                );
            },
            Err(e) => return Err(e),
        };
        let mut balancer = self.create_lb_base_object(&hostname, function);
        let ghost base = changes_of(balancer.changes@);
        balancer.changes.push(AttrOp::Append(String::from_str("health_checks"), check));
        balancer.changes.push(AttrOp::Assign(String::from_str("min_nodes"), JsonValue::Int(1)));
        balancer.changes.push(
            AttrOp::Assign(
                String::from_str("min_nodes_action"),
                JsonValue::Str(String::from_str("force_down")),
            ),
        );
        balancer.changes.push(AttrOp::Assign(String::from_str("symmetric_nat"), JsonValue::Bool(false)));
        balancer.ip_network = Some(network);
        balancer.deferred.push(AttrOp::Append(String::from_str("service_groups"), group));
        proof {
            assert(changes_of(balancer.changes@) =~= base + seq![
                Change::Append("health_checks"@, rendered(lb.health_check.name_value(), variables@)->Ok_0),
            ] + lb_policy());
            assert(changes_of(balancer.deferred@) =~= seq![
                Change::Append("service_groups"@, rendered(firewall_export.name, variables@)->Ok_0),
            ]);
        }
        Ok(Some(balancer))
    }

    /// The group of the intern ports of the service of `function`.
    fn create_intern_sg(&self, service: &Service, function: &String) -> (r: ObjectDraft)
        ensures
            r@ == intern_sg(self@, function@, service.firewall.intern@),
    {
        let mut hostname = String::new();
        push_opt(&mut hostname, &self.subproject);
        hostname.append("-");
        push_opt(&mut hostname, &self.environment);
        hostname.append("-");
        hostname.append(function.as_str());
        hostname.append("-intern.");
        push_opt(&mut hostname, &self.project);
        hostname.append(".sg");
        assert(hostname@ =~= intern_sg_hostname(self@, function@));
        let mut group = self.create_sg_base_object(&hostname, function);
        let ghost base = changes_of(group.changes@);
        group.changes.push(AttrOp::Append(String::from_str("sg_allow_from"), JsonValue::Str(hostname.clone())));
        group.changes.push(AttrOp::Append(String::from_str("sg_allow_to"), JsonValue::Str(hostname.clone())));
        assert(changes_of(group.changes@) =~= base + seq![
            Change::Append("sg_allow_from"@, Json::Str(hostname@)),
            Change::Append("sg_allow_to"@, Json::Str(hostname@)),
        ]);
        let ports = &service.firewall.intern;
        let mut i: usize = 0;
        assert(changes_of(group.deferred@) =~= port_pairs(ports@, 0));
        while i < ports.len()
            invariant
                i <= ports@.len(),
                changes_of(group.deferred@) == port_pairs(ports@, i as int),
                group.servertype@ == "service_group"@,
                group.hostname@ == hostname@,
                group.ip_network is None,
                changes_of(group.changes@) == base + seq![
                    Change::Append("sg_allow_from"@, Json::Str(hostname@)),
                    Change::Append("sg_allow_to"@, Json::Str(hostname@)),
                ],
            decreases ports@.len() - i,
        {
            let ghost before = changes_of(group.deferred@);
            group.deferred.push(AttrOp::Append(String::from_str("protocol_ports_inbound"), JsonValue::Str(ports[i].clone())));
            group.deferred.push(AttrOp::Append(String::from_str("protocol_ports_outbound"), JsonValue::Str(ports[i].clone())));
            assert(changes_of(group.deferred@) =~= port_pairs(ports@, i + 1));
            i = i + 1;
        }
        group
    }
}

/// Defers the links of a virtual machine to every group and load balancer of its service.
fn link_vm(vm: &mut ObjectDraft, groups: &Vec<ObjectDraft>, lbs: &Vec<ObjectDraft>)
    ensures
        final(vm)@ == linked_vm(old(vm)@, drafts_of(groups@), drafts_of(lbs@)),
{
    let ghost start = changes_of(vm.deferred@);
    let ghost gs = drafts_of(groups@);
    let ghost ls = drafts_of(lbs@);
    let mut i: usize = 0;
    while i < groups.len()
        invariant
            i <= groups@.len(),
            gs == drafts_of(groups@),
            vm.servertype == old(vm).servertype,
            vm.hostname == old(vm).hostname,
            vm.changes == old(vm).changes,
            vm.ip_network == old(vm).ip_network,
            changes_of(vm.deferred@) == start + Seq::new(
                i as nat,
                |k: int| Change::Append("service_groups"@, Json::Str(gs[k].hostname)),
            ),
        decreases groups@.len() - i,
    {
        let ghost before = changes_of(vm.deferred@);
        vm.deferred.push(
            AttrOp::Append(String::from_str("service_groups"), JsonValue::Str(groups[i].hostname.clone())),
        );
        assert(changes_of(vm.deferred@) =~= before.push(
            Change::Append("service_groups"@, Json::Str(gs[i as int].hostname)),
        ));
        assert(changes_of(vm.deferred@) =~= start + Seq::new(
            (i + 1) as nat,
            |k: int| Change::Append("service_groups"@, Json::Str(gs[k].hostname)),
        ));
        i = i + 1;
    }
    let ghost mid = changes_of(vm.deferred@);
    let mut i: usize = 0;
    while i < lbs.len()
        invariant
            i <= lbs@.len(),
            ls == drafts_of(lbs@),
            vm.servertype == old(vm).servertype,
            vm.hostname == old(vm).hostname,
            vm.changes == old(vm).changes,
            vm.ip_network == old(vm).ip_network,
            changes_of(vm.deferred@) == mid + Seq::new(
                i as nat,
                |k: int| Change::Append("loadbalancer"@, Json::Str(ls[k].hostname)),
            ),
        decreases lbs@.len() - i,
    {
        let ghost before = changes_of(vm.deferred@);
        vm.deferred.push(
            AttrOp::Append(String::from_str("loadbalancer"), JsonValue::Str(lbs[i].hostname.clone())),
        );
        assert(changes_of(vm.deferred@) =~= before.push(
            Change::Append("loadbalancer"@, Json::Str(ls[i as int].hostname)),
        ));
        assert(changes_of(vm.deferred@) =~= mid + Seq::new(
            (i + 1) as nat,
            |k: int| Change::Append("loadbalancer"@, Json::Str(ls[k].hostname)),
        ));
        i = i + 1;
    }
    assert(changes_of(vm.deferred@) =~= old(vm)@.deferred + vm_links(gs, ls));
}

/// Adds each of `ports` to `field`.
fn push_ports(out: &mut Vec<AttrOp>, field: &str, ports: &Vec<String>)
    ensures
        changes_of(final(out)@) == changes_of(old(out)@) + port_adds(field@, ports@),
{
    let ghost start = changes_of(out@);
    let mut i: usize = 0;
    while i < ports.len()
        invariant
            i <= ports@.len(),
            changes_of(out@) == start + port_adds(field@, ports@.subrange(0, i as int)),
        decreases ports@.len() - i,
    {
        let ghost before = changes_of(out@);
        out.push(AttrOp::Append(String::from_str(field), JsonValue::Str(ports[i].clone())));
        assert(changes_of(out@) =~= before.push(Change::Append(field@, Json::Str(ports@[i as int]@))));
        assert(port_adds(field@, ports@.subrange(0, i + 1)) =~= port_adds(
            field@,
            ports@.subrange(0, i as int),
        ).push(Change::Append(field@, Json::Str(ports@[i as int]@))));
        assert(changes_of(out@) =~= start + port_adds(field@, ports@.subrange(0, i + 1)));
        i = i + 1;
    }
    assert(ports@.subrange(0, i as int) =~= ports@);
}

/// The path of a field of the service of `function` in a plan.
fn service_path(function: &String, rest: &str) -> (r: String)
    ensures
        r@ == "services."@ + function@ + rest@,
{
    let mut path = String::from_str("services.");
    path.append(function.as_str());
    path.append(rest);
    path
}

/// Appends the text of `o`, if any, to `out`.
fn push_opt(out: &mut String, o: &Option<String>)
    ensures
        final(out)@ == old(out)@ + or_empty(opt_text(*o)),
{
    match o {
        Some(s) => out.append(s.as_str()),
        None => {
            assert(old(out)@ + or_empty(opt_text(*o)) =~= old(out)@);
        },
    }
}

} // verus!
