use service_plan::config::{
    ExternalFirewallRule, FirewallExport, FirewallLoadbalancer, HealthCheck, Service,
    ServiceFirewall, ServiceInstance, ServicePlan,
};
use service_plan::draft::{AttrOp, FlushStep, ObjectDraft};
use service_plan::error::PlanError;
use service_plan::json::JsonValue;
use service_plan::plan_processor::{ProcessorBuildContext, ServicePlanProcessor};
use service_plan::processable_value::{ProcessableValue, Variables};
use service_plan::text::{push_decimal, push_two_digits};

fn text(s: &str) -> JsonValue {
    JsonValue::Str(s.to_string())
}

fn lit(s: &str) -> ProcessableValue {
    ProcessableValue::fixed(text(s))
}

fn tpl(s: &str) -> ProcessableValue {
    ProcessableValue::template(text(s))
}

fn service(replicas: u32, exports: Vec<FirewallExport>, imports: Vec<ExternalFirewallRule>) -> Service {
    Service {
        instances: vec![(
            "web".to_string(),
            ServiceInstance { replicas, project_network: lit("net") },
        )],
        firewall: ServiceFirewall { intern: vec!["22/tcp".to_string()], export: exports, import: imports },
        vm: vec![
            ("os".to_string(), tpl("{environment}-image")),
            (
                "tags".to_string(),
                ProcessableValue::sequence(vec![lit("a"), tpl("{function}")]),
            ),
        ],
    }
}

fn export(lb: Option<FirewallLoadbalancer>) -> FirewallExport {
    FirewallExport { ports: vec!["80/tcp".to_string()], name: lit("web.acme.sg"), loadbalancer: lb }
}

fn processor(plan: Vec<(&str, Service)>, environment: &str) -> ServicePlanProcessor {
    let mut p = ServicePlanProcessor::new(ServicePlan {
        services: plan.into_iter().map(|(n, s)| (n.to_string(), s)).collect(),
    });
    p.project("acme".to_string())
        .subproject("core".to_string())
        .environment(environment.to_string());
    p
}

fn appends<'a>(ops: &'a [AttrOp], field: &str) -> Vec<&'a JsonValue> {
    ops.iter()
        .filter_map(|op| match op {
            AttrOp::Append(f, v) if f == field => Some(v),
            _ => None,
        })
        .collect()
}

fn assigned<'a>(ops: &'a [AttrOp], field: &str) -> Option<&'a JsonValue> {
    ops.iter().rev().find_map(|op| match op {
        AttrOp::Assign(f, v) if f == field => Some(v),
        _ => None,
    })
}

fn of_type<'a>(drafts: &'a [ObjectDraft], servertype: &str) -> Vec<&'a ObjectDraft> {
    drafts.iter().filter(|d| d.servertype == servertype).collect()
}

#[test]
fn vm_hostname_outside_production() {
    let drafts = processor(vec![("api", service(1, vec![], vec![]))], "staging")
        .get_unrelational_resources()
        .unwrap();
    let vms = of_type(&drafts, "vm");
    assert_eq!(vms.len(), 1);
    assert_eq!(vms[0].hostname, "web-core-staging-api01.acme.ig.local");
}

#[test]
fn vm_hostname_in_production() {
    let drafts = processor(vec![("api", service(1, vec![], vec![]))], "production")
        .get_unrelational_resources()
        .unwrap();
    let vms = of_type(&drafts, "vm");
    assert_eq!(vms[0].hostname, "web-core-api01.acme.ig.local");
}

#[test]
fn vm_hostnames_count_from_one_with_two_digits() {
    let drafts = processor(vec![("api", service(10, vec![], vec![]))], "staging")
        .get_unrelational_resources()
        .unwrap();
    let vms = of_type(&drafts, "vm");
    assert_eq!(vms.len(), 10);
    assert_eq!(vms[8].hostname, "web-core-staging-api09.acme.ig.local");
    assert_eq!(vms[9].hostname, "web-core-staging-api10.acme.ig.local");
}

#[test]
fn vm_attributes_and_stamp() {
    let drafts = processor(vec![("api", service(1, vec![], vec![]))], "staging")
        .get_unrelational_resources()
        .unwrap();
    let vm = of_type(&drafts, "vm")[0];
    assert_eq!(assigned(&vm.changes, "hostname"), Some(&text("web-core-staging-api01.acme.ig.local")));
    assert_eq!(assigned(&vm.changes, "os"), Some(&text("staging-image")));
    assert_eq!(appends(&vm.changes, "tags"), vec![&text("a"), &text("api")]);
    assert_eq!(assigned(&vm.changes, "project"), Some(&text("acme")));
    assert_eq!(assigned(&vm.changes, "subproject"), Some(&text("core")));
    assert_eq!(assigned(&vm.changes, "environment"), Some(&text("staging")));
    assert_eq!(assigned(&vm.changes, "function"), Some(&text("api")));
    assert_eq!(vm.ip_network.as_deref(), Some("net"));
    assert_eq!(vm.ip_request(false).as_deref(), Some("net"));
    assert_eq!(vm.ip_request(true), None);
}

#[test]
fn one_export_without_imports() {
    let drafts = processor(vec![("api", service(2, vec![export(None)], vec![]))], "staging")
        .get_unrelational_resources()
        .unwrap();
    let vms = of_type(&drafts, "vm");
    let groups = of_type(&drafts, "service_group");
    assert_eq!(vms.len(), 2);
    assert_eq!(groups.len(), 2);
    assert_eq!(of_type(&drafts, "loadbalancer").len(), 0);
    assert_eq!(drafts.len(), 4);
    assert_eq!(groups[0].hostname, "web.acme.sg");
    assert_eq!(appends(&groups[0].changes, "protocol_ports_inbound"), vec![&text("80/tcp")]);
    assert_eq!(groups[1].hostname, "core-staging-api-intern.acme.sg");
    for vm in vms {
        let linked = appends(&vm.deferred, "service_groups");
        assert!(linked.contains(&&text("web.acme.sg")));
        assert!(linked.contains(&&text("core-staging-api-intern.acme.sg")));
        assert!(appends(&vm.deferred, "loadbalancer").is_empty());
    }
}

#[test]
fn intern_group_allows_itself_and_defers_ports() {
    let drafts = processor(vec![("api", service(0, vec![], vec![]))], "staging")
        .get_unrelational_resources()
        .unwrap();
    assert_eq!(drafts.len(), 1);
    let intern = &drafts[0];
    let own = text("core-staging-api-intern.acme.sg");
    assert_eq!(appends(&intern.changes, "sg_allow_from"), vec![&own]);
    assert_eq!(appends(&intern.changes, "sg_allow_to"), vec![&own]);
    assert_eq!(
        intern.deferred,
        vec![
            AttrOp::Append("protocol_ports_inbound".to_string(), text("22/tcp")),
            AttrOp::Append("protocol_ports_outbound".to_string(), text("22/tcp")),
        ]
    );
}

#[test]
fn loadbalancer_is_linked_to_its_export_group() {
    let lb = FirewallLoadbalancer {
        name: tpl("{function}-lb.{project}"),
        public_network: lit("public"),
        health_check: HealthCheck::Import { name: lit("http-check") },
    };
    let drafts = processor(vec![("api", service(1, vec![export(Some(lb))], vec![]))], "staging")
        .get_unrelational_resources()
        .unwrap();
    let lbs = of_type(&drafts, "loadbalancer");
    assert_eq!(lbs.len(), 1);
    let lb = lbs[0];
    assert_eq!(lb.hostname, "api-lb.acme");
    assert_eq!(
        lb.deferred,
        vec![AttrOp::Append("service_groups".to_string(), text("web.acme.sg"))]
    );
    assert_eq!(assigned(&lb.changes, "min_nodes"), Some(&JsonValue::Int(1)));
    assert_eq!(assigned(&lb.changes, "min_nodes_action"), Some(&text("force_down")));
    assert_eq!(assigned(&lb.changes, "symmetric_nat"), Some(&JsonValue::Bool(false)));
    assert_eq!(appends(&lb.changes, "health_checks"), vec![&text("http-check")]);
    assert_eq!(lb.ip_network.as_deref(), Some("public"));
    let vm = of_type(&drafts, "vm")[0];
    assert_eq!(appends(&vm.deferred, "loadbalancer"), vec![&text("api-lb.acme")]);
}

#[test]
fn import_group_defers_its_references() {
    let rule = ExternalFirewallRule {
        ports: vec!["5432/tcp".to_string()],
        service: lit("db"),
        references: vec![lit("db.acme.sg"), tpl("{function}-cache.sg")],
    };
    let drafts = processor(vec![("api", service(0, vec![], vec![rule]))], "staging")
        .get_unrelational_resources()
        .unwrap();
    let group = &drafts[0];
    assert_eq!(group.hostname, "core-staging-db-clients.acme.sg");
    assert_eq!(appends(&group.changes, "protocol_ports_outbound"), vec![&text("5432/tcp")]);
    assert_eq!(
        appends(&group.deferred, "sg_allow_to"),
        vec![&text("db.acme.sg"), &text("api-cache.sg")]
    );
}

#[test]
fn export_name_must_be_a_string() {
    let bad = FirewallExport { ports: vec![], name: ProcessableValue::fixed(JsonValue::Bool(true)), loadbalancer: None };
    let r = processor(vec![("api", service(0, vec![bad], vec![]))], "staging").get_unrelational_resources();
    match r {
        Err(PlanError::NotAString(path)) => assert_eq!(path, "services.api.firewall.export.[*].name"),
        other => panic!("unexpected {:?}", other),
    }
}

#[test]
fn project_network_must_be_a_string() {
    let mut s = service(1, vec![], vec![]);
    s.instances[0].1.project_network = ProcessableValue::fixed(JsonValue::Null);
    let r = processor(vec![("api", s)], "staging").get_unrelational_resources();
    match r {
        Err(PlanError::NotAString(path)) => assert_eq!(path, "services.api.instances.web.project_network"),
        other => panic!("unexpected {:?}", other),
    }
}

#[test]
fn template_failure_fails_the_whole_plan() {
    let mut s = service(1, vec![], vec![]);
    s.vm.push(("broken".to_string(), tpl("{unknown}")));
    let r = processor(vec![("ok", service(1, vec![], vec![])), ("api", s)], "staging")
        .get_unrelational_resources();
    assert_eq!(r.err(), Some(PlanError::TemplateFailed));
}

#[test]
fn services_are_concatenated_in_order() {
    let drafts = processor(
        vec![("api", service(1, vec![], vec![])), ("db", service(1, vec![], vec![]))],
        "staging",
    )
    .get_unrelational_resources()
    .unwrap();
    let names: Vec<&str> = drafts.iter().map(|d| d.hostname.as_str()).collect();
    assert_eq!(
        names,
        vec![
            "web-core-staging-api01.acme.ig.local",
            "core-staging-api-intern.acme.sg",
            "web-core-staging-db01.acme.ig.local",
            "core-staging-db-intern.acme.sg",
        ]
    );
}

#[test]
fn processor_allocates_from_added_networks() {
    let mut p = processor(vec![], "staging");
    assert_eq!(p.get_free_ip("net"), Err(PlanError::UnknownNetwork("net".to_string())));
    assert!(matches!(p.add_network("net".to_string(), "bad", vec![]), Err(PlanError::InvalidCidr(_))));
    p.add_network("net".to_string(), "192.168.1.0/30", vec!["192.168.1.1".to_string()]).unwrap();
    assert_eq!(p.get_free_ip("net"), Ok("192.168.1.2".to_string()));
    assert_eq!(p.get_free_ip("net"), Err(PlanError::NoFreeIp("net".to_string())));
}

#[test]
fn render_variables_add_the_function() {
    let mut base = Variables::new();
    base.insert("project".to_string(), "acme".to_string());
    let context = ProcessorBuildContext { function: "api".to_string() };
    let vars = context.get_render_variables(&base);
    let out = tpl("{function}.{project}").render(&vars).unwrap();
    assert_eq!(out, text("api.acme"));
}

#[test]
fn deferred_changes_apply_in_order_and_stop_on_failure() {
    let draft = ObjectDraft {
        servertype: "vm".to_string(),
        hostname: "h".to_string(),
        changes: vec![],
        ip_network: None,
        deferred: vec![
            AttrOp::Append("a".to_string(), JsonValue::Null),
            AttrOp::Append("b".to_string(), JsonValue::Null),
            AttrOp::Append("c".to_string(), JsonValue::Null),
        ],
    };
    let outcomes = [true, false, true];
    let mut applied = Vec::new();
    let mut done = 0usize;
    let mut ok = true;
    let last = loop {
        match draft.next_deferred(done, ok) {
            FlushStep::Apply(i) => {
                applied.push(i);
                ok = outcomes[i];
                done += 1;
            }
            other => break other,
        }
    };
    assert_eq!(applied, vec![0, 1]);
    assert_eq!(last, FlushStep::Stopped);
    let mut all = Vec::new();
    let mut done = 0usize;
    while let FlushStep::Apply(i) = draft.next_deferred(done, true) {
        all.push(i);
        done += 1;
    }
    assert_eq!(all, vec![0, 1, 2]);
    assert_eq!(draft.next_deferred(3, true), FlushStep::Done);
}

#[test]
fn decimal_text() {
    let mut s = String::new();
    push_decimal(&mut s, 0);
    s.push(' ');
    push_decimal(&mut s, 1234);
    s.push(' ');
    push_two_digits(&mut s, 7);
    s.push(' ');
    push_two_digits(&mut s, 42);
    assert_eq!(s, "0 1234 07 42");
}
