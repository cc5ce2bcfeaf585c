//! Network isolation: the iptables commands that enforce each mode, the
//! isolator that decides when to apply and remove them, and workspace
//! network namespaces.

use vstd::prelude::*;
use crate::types::AirGapMode;
use crate::text::{chars_of, contains_str, spec_contains, decimal, spec_decimal, str_eq, concat2};
use crate::text::{spec_is_whitespace, spec_trim_start, first_word, spec_first_word, spec_starts_with, starts_with_chars, lines_of, spec_lines, string_views};

verus! {

/// The comment that marks every rule this library adds.
pub open spec fn managed_comment() -> Seq<char> {
    "maranode-managed"@
}

/// An allowed outbound destination in whitelist mode.
#[derive(Debug, Clone)]
pub struct WhitelistEntry {
    pub host: String,
    pub port: u16,
    pub comment: String,
}

/// What isolation to enforce.
#[derive(Debug, Clone)]
pub struct IsolationConfig {
    pub mode: AirGapMode,
    pub api_port: u16,
    pub api_allowed_sources: Vec<String>,
    pub whitelist: Vec<WhitelistEntry>,
}

impl Default for IsolationConfig {
    fn default() -> (r: IsolationConfig)
        ensures
            r.mode == AirGapMode::AirGap,
            r.api_port == 11984,
            r.api_allowed_sources@.len() == 2,
            r.api_allowed_sources@[0]@ == "127.0.0.1"@,
            r.api_allowed_sources@[1]@ == "::1"@,
            r.whitelist@.len() == 0,
    {
        IsolationConfig {
            mode: AirGapMode::AirGap,
            api_port: 11984,
            api_allowed_sources: vec!["127.0.0.1".to_owned(), "::1".to_owned()],
            whitelist: Vec::new(),
        }
    }
}

/// How an iptables command is run.
#[derive(Debug, Clone, Copy, PartialEq, Eq, Structural)]
pub enum OpKind {
    /// Run it; a failure aborts.
    Run,
    /// Run it and ignore a failure.
    RunIgnoringFailure,
    /// Run the `-C` form first; run the command only when that check fails.
    InsertIfAbsent,
}

/// One iptables invocation: how to run it and its arguments.
#[derive(Debug, Clone)]
pub struct IptablesOp {
    pub kind: OpKind,
    pub args: Vec<String>,
}

/// The characters of each argument.
pub open spec fn args_view(v: Seq<String>) -> Seq<Seq<char>> {
    v.map_values(|s: String| s@)
}

/// An operation as plain values.
pub open spec fn op_view(op: IptablesOp) -> (OpKind, Seq<Seq<char>>) {
    (op.kind, args_view(op.args@))
}

/// The operations as plain values.
pub open spec fn ops_view(ops: Seq<IptablesOp>) -> Seq<(OpKind, Seq<Seq<char>>)> {
    ops.map_values(|op: IptablesOp| op_view(op))
}

/// The rule admitting API traffic on `port` from `source`.
pub open spec fn api_source_rule(port: Seq<char>, source: Seq<char>) -> Seq<Seq<char>> {
    seq!["-A"@, "INPUT"@, "-p"@, "tcp"@, "--dport"@, port, "-s"@, source, "-j"@, "ACCEPT"@,
        "-m"@, "comment"@, "--comment"@, managed_comment()]
}

/// The rule admitting outbound traffic to `host` on `port`.
pub open spec fn whitelist_rule(port: Seq<char>, host: Seq<char>) -> Seq<Seq<char>> {
    seq!["-A"@, "OUTPUT"@, "-p"@, "tcp"@, "--dport"@, port, "-d"@, host, "-j"@, "ACCEPT"@,
        "-m"@, "comment"@, "--comment"@, managed_comment()]
}

/// The fixed part of air-gap enforcement: drop by default, keep loopback and
/// established connections.
pub open spec fn air_gap_base() -> Seq<(OpKind, Seq<Seq<char>>)> {
    seq![
        (OpKind::Run, seq!["-P"@, "OUTPUT"@, "DROP"@]),
        (OpKind::Run, seq!["-P"@, "INPUT"@, "DROP"@]),
        (OpKind::Run, seq!["-P"@, "FORWARD"@, "DROP"@]),
        (OpKind::InsertIfAbsent, seq!["-A"@, "INPUT"@, "-i"@, "lo"@, "-j"@, "ACCEPT"@]),
        (OpKind::InsertIfAbsent, seq!["-A"@, "OUTPUT"@, "-o"@, "lo"@, "-j"@, "ACCEPT"@]),
        (OpKind::InsertIfAbsent, seq!["-A"@, "INPUT"@, "-m"@, "state"@, "--state"@, "ESTABLISHED,RELATED"@, "-j"@, "ACCEPT"@]),
    ]
}

/// The commands of air-gap enforcement for a configuration.
pub open spec fn spec_air_gap_plan(c: IsolationConfig) -> Seq<(OpKind, Seq<Seq<char>>)> {
    air_gap_base() + c.api_allowed_sources@.map_values(|s: String|
        (OpKind::InsertIfAbsent, api_source_rule(spec_decimal(c.api_port as nat), s@)))
}

/// The commands of whitelist enforcement: air-gap, then one rule per entry.
pub open spec fn spec_whitelist_plan(c: IsolationConfig) -> Seq<(OpKind, Seq<Seq<char>>)> {
    spec_air_gap_plan(c) + c.whitelist@.map_values(|e: WhitelistEntry|
        (OpKind::InsertIfAbsent, whitelist_rule(spec_decimal(e.port as nat), e.host@)))
}

/// The commands that lift all restrictions, each allowed to fail.
pub open spec fn spec_remove_plan() -> Seq<(OpKind, Seq<Seq<char>>)> {
    seq![
        (OpKind::RunIgnoringFailure, seq!["-F"@]),
        (OpKind::RunIgnoringFailure, seq!["-P"@, "INPUT"@, "ACCEPT"@]),
        (OpKind::RunIgnoringFailure, seq!["-P"@, "OUTPUT"@, "ACCEPT"@]),
        (OpKind::RunIgnoringFailure, seq!["-P"@, "FORWARD"@, "ACCEPT"@]),
    ]
}

/// The commands enforcing a mode: none when isolation is disabled.
pub open spec fn spec_mode_plan(c: IsolationConfig) -> Seq<(OpKind, Seq<Seq<char>>)> {
    match c.mode {
        AirGapMode::AirGap => spec_air_gap_plan(c),
        AirGapMode::Whitelist => spec_whitelist_plan(c),
        AirGapMode::Disabled => Seq::empty(),
    }
}

fn op3(kind: OpKind, a: &str, b: &str, c: &str) -> (r: IptablesOp)
    ensures
        op_view(r) == (kind, seq![a@, b@, c@]),
{
    let r = IptablesOp { kind, args: vec![a.to_owned(), b.to_owned(), c.to_owned()] };
    assert(args_view(r.args@) =~= seq![a@, b@, c@]);
    r
}

fn op6(kind: OpKind, a: &str, b: &str, c: &str, d: &str, e: &str, f: &str) -> (r: IptablesOp)
    ensures
        op_view(r) == (kind, seq![a@, b@, c@, d@, e@, f@]),
{
    let r = IptablesOp {
        kind,
        args: vec![a.to_owned(), b.to_owned(), c.to_owned(), d.to_owned(), e.to_owned(), f.to_owned()],
    };
    assert(args_view(r.args@) =~= seq![a@, b@, c@, d@, e@, f@]);
    r
}

fn push_op(ops: &mut Vec<IptablesOp>, o: IptablesOp)
    ensures
        ops_view(final(ops)@) == ops_view(old(ops)@).push(op_view(o)),
{
    ops.push(o);
    assert(ops_view(ops@) =~= ops_view(old(ops)@).push(op_view(o)));
}

/// The iptables commands that enforce air-gap mode: default DROP on all
/// chains, loopback and established traffic allowed, and API traffic allowed
/// from each configured source, marked with the managed comment.
pub fn apply_air_gap(config: &IsolationConfig) -> (r: Vec<IptablesOp>)
    ensures
        ops_view(r@) == spec_air_gap_plan(*config),
{
    let mut ops: Vec<IptablesOp> = Vec::new();
    push_op(&mut ops, op3(OpKind::Run, "-P", "OUTPUT", "DROP"));
    push_op(&mut ops, op3(OpKind::Run, "-P", "INPUT", "DROP"));
    push_op(&mut ops, op3(OpKind::Run, "-P", "FORWARD", "DROP"));
    push_op(&mut ops, op6(OpKind::InsertIfAbsent, "-A", "INPUT", "-i", "lo", "-j", "ACCEPT"));
    push_op(&mut ops, op6(OpKind::InsertIfAbsent, "-A", "OUTPUT", "-o", "lo", "-j", "ACCEPT"));
    let est = IptablesOp {
        kind: OpKind::InsertIfAbsent,
        args: vec![
            "-A".to_owned(), "INPUT".to_owned(), "-m".to_owned(), "state".to_owned(), "--state".to_owned(),
            "ESTABLISHED,RELATED".to_owned(), "-j".to_owned(), "ACCEPT".to_owned(),
        ],
    };
    proof {
        assert(args_view(est.args@) =~= seq!["-A"@, "INPUT"@, "-m"@, "state"@, "--state"@, "ESTABLISHED,RELATED"@, "-j"@, "ACCEPT"@]);
    }
    push_op(&mut ops, est);
    proof {
        assert(ops_view(ops@) =~= air_gap_base());
    }
    let port = decimal(config.api_port as u64);
    let sources = &config.api_allowed_sources;
    let ghost rule_of = |s: String| (OpKind::InsertIfAbsent, api_source_rule(spec_decimal(config.api_port as nat), s@));
    let mut i: usize = 0;
    while i < sources.len()
        invariant
            0 <= i <= sources@.len(),
            sources@ == config.api_allowed_sources@,
            port@ == spec_decimal(config.api_port as nat),
            rule_of == (|s: String| (OpKind::InsertIfAbsent, api_source_rule(spec_decimal(config.api_port as nat), s@))),
            ops_view(ops@) == air_gap_base() + sources@.take(i as int).map_values(rule_of),
        decreases sources@.len() - i,
    {
        let src = sources[i].as_str();
        let args = vec![
            "-A".to_owned(), "INPUT".to_owned(), "-p".to_owned(), "tcp".to_owned(), "--dport".to_owned(),
            port.clone(), "-s".to_owned(), src.to_owned(), "-j".to_owned(), "ACCEPT".to_owned(),
            "-m".to_owned(), "comment".to_owned(), "--comment".to_owned(), "maranode-managed".to_owned(),
        ];
        let o = IptablesOp { kind: OpKind::InsertIfAbsent, args };
        proof {
            assert(args_view(o.args@) =~= api_source_rule(port@, src@));
        }
        push_op(&mut ops, o);
        proof {
            assert(sources@.take(i + 1).map_values(rule_of)
                =~= sources@.take(i as int).map_values(rule_of).push(rule_of(sources@[i as int])));
            assert(air_gap_base() + sources@.take(i + 1).map_values(rule_of)
                =~= (air_gap_base() + sources@.take(i as int).map_values(rule_of)).push(rule_of(sources@[i as int])));
        }
        i = i + 1;
    }
    proof {
        assert(sources@.take(sources@.len() as int) =~= sources@);
    }
    ops
}

/// The iptables commands that enforce whitelist mode: the air-gap commands,
/// then one rule per whitelist entry allowing outbound TCP to its host and
/// port, marked with the managed comment.
pub fn apply_whitelist(config: &IsolationConfig) -> (r: Vec<IptablesOp>)
    ensures
        ops_view(r@) == spec_whitelist_plan(*config),
{
    let mut ops = apply_air_gap(config);
    let entries = &config.whitelist;
    let ghost rule_of = |e: WhitelistEntry| (OpKind::InsertIfAbsent, whitelist_rule(spec_decimal(e.port as nat), e.host@));
    let mut i: usize = 0;
    while i < entries.len()
        invariant
            0 <= i <= entries@.len(),
            entries@ == config.whitelist@,
            rule_of == (|e: WhitelistEntry| (OpKind::InsertIfAbsent, whitelist_rule(spec_decimal(e.port as nat), e.host@))),
            ops_view(ops@) == spec_air_gap_plan(*config) + entries@.take(i as int).map_values(rule_of),
        decreases entries@.len() - i,
    {
        let e = &entries[i];
        let port = decimal(e.port as u64);
        let args = vec![
            "-A".to_owned(), "OUTPUT".to_owned(), "-p".to_owned(), "tcp".to_owned(), "--dport".to_owned(),
            port, "-d".to_owned(), e.host.clone(), "-j".to_owned(), "ACCEPT".to_owned(),
            "-m".to_owned(), "comment".to_owned(), "--comment".to_owned(), "maranode-managed".to_owned(),
        ];
        let o = IptablesOp { kind: OpKind::InsertIfAbsent, args };
        proof {
            assert(args_view(o.args@) =~= whitelist_rule(spec_decimal(e.port as nat), e.host@));
        }
        push_op(&mut ops, o);
        proof {
            assert(entries@.take(i + 1).map_values(rule_of)
                =~= entries@.take(i as int).map_values(rule_of).push(rule_of(entries@[i as int])));
            assert(spec_air_gap_plan(*config) + entries@.take(i + 1).map_values(rule_of)
                =~= (spec_air_gap_plan(*config) + entries@.take(i as int).map_values(rule_of)).push(rule_of(entries@[i as int])));
        }
        i = i + 1;
    }
    proof {
        assert(entries@.take(entries@.len() as int) =~= entries@);
    }
    ops
}

/// The iptables commands that flush all rules and reset every chain's policy
/// to ACCEPT; a failure of any of them is ignored.
pub fn remove_rules() -> (r: Vec<IptablesOp>)
    ensures
        ops_view(r@) == spec_remove_plan(),
{
    let mut ops: Vec<IptablesOp> = Vec::new();
    let flush = IptablesOp { kind: OpKind::RunIgnoringFailure, args: vec!["-F".to_owned()] };
    proof {
        assert(args_view(flush.args@) =~= seq!["-F"@]);
    }
    push_op(&mut ops, flush);
    push_op(&mut ops, op3(OpKind::RunIgnoringFailure, "-P", "INPUT", "ACCEPT"));
    push_op(&mut ops, op3(OpKind::RunIgnoringFailure, "-P", "OUTPUT", "ACCEPT"));
    push_op(&mut ops, op3(OpKind::RunIgnoringFailure, "-P", "FORWARD", "ACCEPT"));
    proof {
        assert(ops_view(ops@) =~= spec_remove_plan());
    }
    ops
}

/// The `-C` (check) form of an `-A` (append) command: every `-A` argument
/// becomes `-C`, every other argument stays.
pub open spec fn spec_check_args(args: Seq<Seq<char>>) -> Seq<Seq<char>> {
    args.map_values(|a: Seq<char>| if a == "-A"@ { "-C"@ } else { a })
}

/// The arguments that test whether a rule is already present.
pub fn check_args(add_args: &[String]) -> (r: Vec<String>)
    ensures
        args_view(r@) == spec_check_args(args_view(add_args@)),
{
    let mut r: Vec<String> = Vec::new();
    let mut i: usize = 0;
    while i < add_args.len()
        invariant
            0 <= i <= add_args@.len(),
            args_view(r@) == spec_check_args(args_view(add_args@.take(i as int))),
        decreases add_args@.len() - i,
    {
        let a = add_args[i].as_str();
        if str_eq(a, "-A") {
            r.push("-C".to_owned());
        } else {
            r.push(a.to_owned());
        }
        proof {
            assert(args_view(add_args@.take(i + 1)) =~= args_view(add_args@.take(i as int)).push(add_args@[i as int]@));
            assert(args_view(r@) =~= args_view(r@.drop_last()).push(r@.last()@));
            assert(spec_check_args(args_view(add_args@.take(i + 1)))
                =~= spec_check_args(args_view(add_args@.take(i as int))).push(
                    if add_args@[i as int]@ == "-A"@ { "-C"@ } else { add_args@[i as int]@ }));
        }
        i = i + 1;
    }
    proof {
        assert(add_args@.take(add_args@.len() as int) =~= add_args@);
    }
    r
}

/// Whether `iptables-save` output shows the rules this library manages.
pub fn check_rules_present(iptables_save_output: &str) -> (r: bool)
    ensures
        r == spec_contains(iptables_save_output@, managed_comment()),
{
    let text = chars_of(iptables_save_output);
    contains_str(text.as_slice(), "maranode-managed")
}

/// The result of checking that isolation holds.
#[derive(Debug, Clone)]
pub struct VerifyOutcome {
    pub mode: AirGapMode,
    pub rules_present: bool,
    pub external_probe_blocked: bool,
    pub detail: String,
}

impl VerifyOutcome {
    /// Isolation holds: the rules are in place and, unless isolation is
    /// disabled, the outbound probe was blocked.
    pub fn is_ok(&self) -> (r: bool)
        ensures
            r == (self.rules_present && (self.mode == AirGapMode::Disabled || self.external_probe_blocked)),
    {
        self.rules_present && (matches!(self.mode, AirGapMode::Disabled) || self.external_probe_blocked)
    }
}

/// The explanation given with a verification result.
pub open spec fn spec_verify_detail(rules_present: bool, blocked: bool) -> Seq<char> {
    if rules_present && blocked {
        "All outbound traffic blocked. iptables rules intact."@
    } else if !rules_present {
        "WARNING: expected iptables rules are missing!"@
    } else {
        "WARNING: external network probe succeeded: air-gap may be broken!"@
    }
}

/// Applies, checks and removes isolation for one configuration at a time.
#[derive(Debug)]
pub struct Isolator {
    config: IsolationConfig,
}

impl Isolator {
    /// The configuration being enforced.
    pub closed spec fn spec_config(&self) -> IsolationConfig {
        self.config
    }

    /// An isolator for a configuration; nothing is applied yet.
    pub fn new(config: IsolationConfig) -> (r: Isolator)
        ensures
            r.spec_config() == config,
    {
        Isolator { config }
    }

    /// The configuration being enforced.
    pub fn config(&self) -> (r: &IsolationConfig)
        ensures
            *r == self.spec_config(),
    {
        &self.config
    }

    /// The commands that enforce the configured mode: the air-gap commands,
    /// the whitelist commands, or none when isolation is disabled.
    pub fn apply(&self) -> (r: Vec<IptablesOp>)
        ensures
            ops_view(r@) == spec_mode_plan(self.spec_config()),
    {
        match self.config.mode {
            AirGapMode::AirGap => apply_air_gap(&self.config),
            AirGapMode::Whitelist => apply_whitelist(&self.config),
            AirGapMode::Disabled => {
                let r: Vec<IptablesOp> = Vec::new();
                assert(ops_view(r@) =~= Seq::<(OpKind, Seq<Seq<char>>)>::empty());
                r
            },
        }
    }

    /// Judges isolation from whether the managed rules were found and whether
    /// the outbound probe was blocked.
    pub fn verify(&self, rules_present: bool, external_probe_blocked: bool) -> (r: VerifyOutcome)
        ensures
            r.mode == self.spec_config().mode,
            r.rules_present == rules_present,
            r.external_probe_blocked == external_probe_blocked,
            r.detail@ == spec_verify_detail(rules_present, external_probe_blocked),
    {
        let detail = if rules_present && external_probe_blocked {
            "All outbound traffic blocked. iptables rules intact.".to_owned()
        } else if !rules_present {
            "WARNING: expected iptables rules are missing!".to_owned()
        } else {
            "WARNING: external network probe succeeded: air-gap may be broken!".to_owned()
        };
        VerifyOutcome { mode: self.config.mode, rules_present, external_probe_blocked, detail }
    }

    /// The commands that remove isolation.
    pub fn teardown(&self) -> (r: Vec<IptablesOp>)
        ensures
            ops_view(r@) == spec_remove_plan(),
    {
        remove_rules()
    }

    /// Switches to a new configuration. The old rules are removed first when
    /// the mode or the API port changes; then the new mode is enforced.
    pub fn reconfigure(&mut self, config: IsolationConfig) -> (r: Vec<IptablesOp>)
        ensures
            final(self).spec_config() == config,
            ops_view(r@) == if old(self).spec_config().mode != config.mode
                || old(self).spec_config().api_port != config.api_port {
                spec_remove_plan() + spec_mode_plan(config)
            } else {
                spec_mode_plan(config)
            },
    {
        let mode_changed = self.config.mode != config.mode;
        let mut ops: Vec<IptablesOp> = if mode_changed || self.config.api_port != config.api_port {
            remove_rules()
        } else {
            Vec::new()
        };
        let ghost first = ops@;
        self.config = config;
        let mut applied = self.apply();
        ops.append(&mut applied);
        proof {
            assert(ops_view(ops@) =~= ops_view(first) + spec_mode_plan(config));
            if !(mode_changed || old(self).spec_config().api_port != config.api_port) {
                assert(ops_view(first) =~= Seq::<(OpKind, Seq<Seq<char>>)>::empty());
            }
        }
        ops
    }
}

/// Air-gap enforcement denies by default: its first three commands set the
/// OUTPUT, INPUT and FORWARD policies to DROP, and every rule it adds after
/// the fixed ones admits API traffic and carries the managed comment.
pub proof fn lemma_air_gap_denies_by_default(c: IsolationConfig)
    ensures
        spec_air_gap_plan(c)[0] == (OpKind::Run, seq!["-P"@, "OUTPUT"@, "DROP"@]),
        spec_air_gap_plan(c)[1] == (OpKind::Run, seq!["-P"@, "INPUT"@, "DROP"@]),
        spec_air_gap_plan(c)[2] == (OpKind::Run, seq!["-P"@, "FORWARD"@, "DROP"@]),
        spec_air_gap_plan(c).len() == 6 + c.api_allowed_sources@.len(),
        forall|i: int| 6 <= i < spec_air_gap_plan(c).len() ==> (#[trigger] spec_air_gap_plan(c)[i]).1.last() == managed_comment(),
{
    assert forall|i: int| 6 <= i < spec_air_gap_plan(c).len() implies (#[trigger] spec_air_gap_plan(c)[i]).1.last() == managed_comment() by {
        let s = c.api_allowed_sources@[i - 6];
        assert(spec_air_gap_plan(c)[i] == (OpKind::InsertIfAbsent, api_source_rule(spec_decimal(c.api_port as nat), s@)));
    }
}

/// Whitelist enforcement is air-gap enforcement followed by one rule per entry.
pub proof fn lemma_whitelist_extends_air_gap(c: IsolationConfig)
    ensures
        spec_whitelist_plan(c).len() == spec_air_gap_plan(c).len() + c.whitelist@.len(),
        spec_whitelist_plan(c).take(spec_air_gap_plan(c).len() as int) == spec_air_gap_plan(c),
{
    assert(spec_whitelist_plan(c).take(spec_air_gap_plan(c).len() as int) =~= spec_air_gap_plan(c));
}

/// The check form of a command differs from it only where it appended.
pub proof fn lemma_check_args_only_swaps_append(args: Seq<Seq<char>>)
    ensures
        spec_check_args(args).len() == args.len(),
        forall|i: int| 0 <= i < args.len() && args[i] != "-A"@ ==> #[trigger] spec_check_args(args)[i] == args[i],
        forall|i: int| 0 <= i < args.len() && args[i] == "-A"@ ==> #[trigger] spec_check_args(args)[i] == "-C"@,
{
}

/// The prefix of every workspace network namespace name.
pub open spec fn ns_prefix() -> Seq<char> {
    "maranode-ws-"@
}

/// The network namespace of a workspace.
pub fn ns_name(slug: &str) -> (r: String)
    ensures
        r@ == ns_prefix() + slug@,
{
    concat2("maranode-ws-", slug)
}

/// Where the network namespace of a workspace appears when it exists.
pub fn netns_path(slug: &str) -> (r: String)
    ensures
        r@ == "/var/run/netns/"@ + ns_prefix() + slug@,
{
    let mut r = concat2("/var/run/netns/", "maranode-ws-");
    crate::text::append_str(&mut r, slug);
    r
}

/// What one line of `ip netns list` contributes: the workspace slug of its
/// first word, where that word names a workspace namespace.
pub open spec fn netns_entry(line: Seq<char>) -> Option<Seq<char>> {
    match spec_first_word(line) {
        Some(w) => if spec_starts_with(w, ns_prefix()) {
            Some(w.skip(ns_prefix().len() as int))
        } else {
            None
        },
        None => None,
    }
}

/// The workspace slugs named by a list of `ip netns list` lines, in order.
pub open spec fn netns_slugs(lines: Seq<Seq<char>>) -> Seq<Seq<char>>
    decreases lines.len(),
{
    if lines.len() == 0 {
        Seq::empty()
    } else {
        netns_slugs(lines.drop_last()) + match netns_entry(lines.last()) {
            Some(n) => seq![n],
            None => Seq::<Seq<char>>::empty(),
        }
    }
}

/// The workspace slugs in the output of `ip netns list`: of each line, the
/// first word, where it starts with the workspace prefix, without that prefix.
pub fn parse_netns_list(text: &str) -> (r: Vec<String>)
    ensures
        string_views(r@) == netns_slugs(spec_lines(text@)),
{
    let lines = lines_of(text);
    let prefix = chars_of("maranode-ws-");
    proof { reveal_strlit("maranode-ws-"); }
    let mut out: Vec<String> = Vec::new();
    let mut i: usize = 0;
    while i < lines.len()
        invariant
            0 <= i <= lines@.len(),
            prefix@ == ns_prefix(),
            string_views(lines@) == spec_lines(text@),
            string_views(out@) == netns_slugs(string_views(lines@).take(i as int)),
        decreases lines@.len() - i,
    {
        let ghost before = string_views(lines@).take(i as int);
        let ghost after = string_views(lines@).take(i + 1);
        proof {
            assert(after.drop_last() =~= before);
            assert(after.last() == lines@[i as int]@);
        }
        let cs = chars_of(lines[i].as_str());
        match first_word(cs.as_slice()) {
            Some(w) => {
                if starts_with_chars(w.as_slice(), prefix.as_slice()) {
                    let mut slug = String::new();
                    let mut k: usize = prefix.len();
                    while k < w.len()
                        invariant
                            prefix@.len() <= k <= w@.len(),
                            slug@ == w@.subrange(prefix@.len() as int, k as int),
                        decreases w@.len() - k,
                    {
                        crate::text::push_char(&mut slug, w[k]);
                        assert(w@.subrange(prefix@.len() as int, k as int).push(w@[k as int])
                            =~= w@.subrange(prefix@.len() as int, k + 1));
                        k = k + 1;
                    }
                    proof {
                        assert(w@.skip(prefix@.len() as int) =~= slug@);
                        assert(string_views(out@.push(slug)) =~= string_views(out@).push(slug@));
                    }
                    out.push(slug);
                }
            },
            None => {},
        }
        proof {
            assert(string_views(lines@).take(i + 1) == after);
        }
        i = i + 1;
    }
    proof {
        assert(string_views(lines@).take(lines@.len() as int) =~= string_views(lines@));
    }
    out
}

/// A workspace's namespace is listed back as that workspace: a line of
/// `ip netns list` that starts with the name `ns_name` gives, followed by
/// nothing or by whitespace and anything, yields the slug again, for every
/// slug without whitespace.
pub proof fn lemma_netns_name_listed_back(slug: Seq<char>, rest: Seq<char>)
    requires
        forall|i: int| 0 <= i < slug.len() ==> !spec_is_whitespace(#[trigger] slug[i]),
        rest.len() == 0 || spec_is_whitespace(rest[0]),
    ensures
        netns_entry(ns_prefix() + slug + rest) == Some(slug),
{
    reveal_strlit("maranode-ws-");
    let name = ns_prefix() + slug;
    let line = name + rest;
    assert(line[0] == 'm');
    assert(!spec_is_whitespace(line[0]));
    assert(spec_trim_start(line) == line);
    assert forall|j: int| 0 <= j < name.len() implies !spec_is_whitespace(#[trigger] line[j]) by {
        if j < ns_prefix().len() {
            assert(line[j] == ns_prefix()[j]);
        } else {
            assert(line[j] == slug[j - ns_prefix().len()]);
        }
    }
    if rest.len() > 0 {
        assert(line[name.len() as int] == rest[0]);
    }
    crate::text::lemma_word_len(line, name.len() as int);
    assert(line.take(name.len() as int) =~= name);
    assert(name.subrange(0, ns_prefix().len() as int) =~= ns_prefix());
    assert(name.skip(ns_prefix().len() as int) =~= slug);
}

/// The public resolvers an isolation check tries to reach; reaching either
/// means egress is open.
pub fn external_probe_targets() -> (r: Vec<(&'static str, u16)>)
    ensures
        r@.len() == 2,
        r@[0].0@ == "1.1.1.1"@ && r@[0].1 == 53,
        r@[1].0@ == "8.8.8.8"@ && r@[1].1 == 53,
{
    vec![("1.1.1.1", 53), ("8.8.8.8", 53)]
}

} // verus!
