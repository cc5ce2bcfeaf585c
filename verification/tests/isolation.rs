use maranode::isolation::{apply_air_gap, apply_whitelist, check_args, check_rules_present, netns_path, ns_name,
    remove_rules, IsolationConfig, Isolator, OpKind, WhitelistEntry};
use maranode::types::AirGapMode;
use maranode::isolation::parse_netns_list;
use maranode::firewall::must_stop;

fn args(op: &maranode::isolation::IptablesOp) -> Vec<&str> {
    op.args.iter().map(|s| s.as_str()).collect()
}

#[test]
fn air_gap_drops_by_default_and_allows_api_sources() {
    let c = IsolationConfig::default();
    let ops = apply_air_gap(&c);
    assert_eq!(ops.len(), 8);
    assert_eq!(args(&ops[0]), vec!["-P", "OUTPUT", "DROP"]);
    assert_eq!(ops[0].kind, OpKind::Run);
    assert_eq!(args(&ops[3]), vec!["-A", "INPUT", "-i", "lo", "-j", "ACCEPT"]);
    assert_eq!(ops[3].kind, OpKind::InsertIfAbsent);
    assert_eq!(
        args(&ops[6]),
        vec!["-A", "INPUT", "-p", "tcp", "--dport", "11984", "-s", "127.0.0.1", "-j", "ACCEPT", "-m", "comment", "--comment", "maranode-managed"]
    );
    assert_eq!(args(&ops[7])[7], "::1");
}

#[test]
fn whitelist_appends_outbound_rules() {
    let mut c = IsolationConfig::default();
    c.mode = AirGapMode::Whitelist;
    c.whitelist.push(WhitelistEntry { host: "10.0.0.5".to_string(), port: 443, comment: "mirror".to_string() });
    let ops = apply_whitelist(&c);
    assert_eq!(ops.len(), 9);
    assert_eq!(
        args(&ops[8]),
        vec!["-A", "OUTPUT", "-p", "tcp", "--dport", "443", "-d", "10.0.0.5", "-j", "ACCEPT", "-m", "comment", "--comment", "maranode-managed"]
    );
}

#[test]
fn removal_and_check_forms() {
    let ops = remove_rules();
    assert_eq!(ops.len(), 4);
    assert!(ops.iter().all(|o| o.kind == OpKind::RunIgnoringFailure));
    assert_eq!(args(&ops[0]), vec!["-F"]);
    let add: Vec<String> = ["-A", "INPUT", "-j", "ACCEPT"].iter().map(|s| s.to_string()).collect();
    assert_eq!(check_args(&add), vec!["-C", "INPUT", "-j", "ACCEPT"]);
    assert!(check_rules_present("-A INPUT -m comment --comment maranode-managed -j ACCEPT"));
    assert!(!check_rules_present("*filter\n:INPUT ACCEPT\n"));
}

#[test]
fn isolator_plans_and_verdicts() {
    let iso = Isolator::new(IsolationConfig::default());
    assert_eq!(iso.apply().len(), 8);
    let ok = iso.verify(true, true);
    assert!(ok.is_ok());
    assert_eq!(ok.detail, "All outbound traffic blocked. iptables rules intact.");
    let missing = iso.verify(false, true);
    assert!(!missing.is_ok());
    assert_eq!(missing.detail, "WARNING: expected iptables rules are missing!");
    let open = iso.verify(true, false);
    assert!(!open.is_ok());
    assert_eq!(open.detail, "WARNING: external network probe succeeded: air-gap may be broken!");
    assert_eq!(iso.teardown().len(), 4);
}

#[test]
fn reconfigure_removes_rules_only_on_mode_or_port_change() {
    let mut iso = Isolator::new(IsolationConfig::default());
    let same = iso.reconfigure(IsolationConfig::default());
    assert_eq!(same.len(), 8);
    let mut c = IsolationConfig::default();
    c.mode = AirGapMode::Disabled;
    let changed = iso.reconfigure(c);
    assert_eq!(changed.len(), 4);
    assert_eq!(iso.config().mode, AirGapMode::Disabled);
    let disabled = iso.verify(true, false);
    assert!(disabled.is_ok());
}

#[test]
fn namespace_names() {
    assert_eq!(ns_name("acme"), "maranode-ws-acme");
    assert_eq!(netns_path("acme"), "/var/run/netns/maranode-ws-acme");
}

#[test]
fn netns_list_keeps_workspace_namespaces() {
    let text = "maranode-ws-alpha (id: 0)\n  maranode-ws-beta\nother-ns (id: 3)\n\nmaranode-wsx\r\nmaranode-ws-gamma\r\n";
    assert_eq!(parse_netns_list(text), vec!["alpha", "beta", "gamma"]);
    assert_eq!(parse_netns_list(""), Vec::<String>::new());
    assert_eq!(parse_netns_list("maranode-ws-"), vec![""]);
}

#[test]
fn isolation_check_probes_two_resolvers() {
    let t = maranode::isolation::external_probe_targets();
    assert_eq!(t, vec![("1.1.1.1", 53), ("8.8.8.8", 53)]);
}

#[test]
fn plan_stops_only_on_failures_that_are_not_allowed() {
    assert!(must_stop(OpKind::Run, false));
    assert!(must_stop(OpKind::InsertIfAbsent, false));
    assert!(!must_stop(OpKind::RunIgnoringFailure, false));
    assert!(!must_stop(OpKind::Run, true));
    assert!(!must_stop(OpKind::InsertIfAbsent, true));
}
