//! A model of the firewall state that iptables commands act on, and what
//! running a plan of commands does to it: with every command succeeding, and
//! with the outcome of each command given, stopping at the first failure
//! that is not allowed.

use vstd::prelude::*;
use crate::isolation::{OpKind, IsolationConfig, WhitelistEntry, spec_air_gap_plan, spec_whitelist_plan, air_gap_base,
    api_source_rule, whitelist_rule, lemma_whitelist_extends_air_gap};
use crate::text::spec_decimal;

verus! {

/// The firewall state: the default policy of each chain, and the rules in order.
pub struct RuleSet {
    pub policies: Map<Seq<char>, Seq<char>>,
    pub rules: Seq<Seq<Seq<char>>>,
}

/// A command that sets the default policy of a chain: `-P chain target`.
pub open spec fn is_policy_op(args: Seq<Seq<char>>) -> bool {
    args.len() == 3 && args[0] == "-P"@
}

/// What one command does when it succeeds. An insert-if-absent command adds
/// its rule unless an equal rule is there; a run command sets a policy,
/// flushes the rules (`-F`), or appends a rule (`-A ...`).
pub open spec fn op_effect(s: RuleSet, op: (OpKind, Seq<Seq<char>>)) -> RuleSet {
    match op.0 {
        OpKind::InsertIfAbsent => if s.rules.contains(op.1) {
            s
        } else {
            RuleSet { policies: s.policies, rules: s.rules.push(op.1) }
        },
        _ => if is_policy_op(op.1) {
            RuleSet { policies: s.policies.insert(op.1[1], op.1[2]), rules: s.rules }
        } else if op.1 == seq!["-F"@] {
            RuleSet { policies: s.policies, rules: Seq::empty() }
        } else if op.1.len() > 0 && op.1[0] == "-A"@ {
            RuleSet { policies: s.policies, rules: s.rules.push(op.1) }
        } else {
            s
        },
    }
}

/// The state after every command of a plan has succeeded, in order.
pub open spec fn run_all(s: RuleSet, ops: Seq<(OpKind, Seq<Seq<char>>)>) -> RuleSet
    decreases ops.len(),
{
    if ops.len() == 0 {
        s
    } else {
        op_effect(run_all(s, ops.drop_last()), ops.last())
    }
}

/// Whether a failure of a command of this kind stops the plan.
pub open spec fn spec_must_stop(kind: OpKind, succeeded: bool) -> bool {
    !succeeded && kind != OpKind::RunIgnoringFailure
}

/// Running a plan from command `i` on, given whether each command succeeds:
/// the state reached, and the index of the command that stopped it, if one
/// did. A failed command changes nothing.
pub open spec fn run_from(s: RuleSet, ops: Seq<(OpKind, Seq<Seq<char>>)>, ok: Seq<bool>, i: int) -> (RuleSet, Option<int>)
    decreases ops.len() - i,
{
    if i < 0 || i >= ops.len() {
        (s, None)
    } else if spec_must_stop(ops[i].0, ok[i]) {
        (s, Some(i))
    } else {
        run_from(if ok[i] { op_effect(s, ops[i]) } else { s }, ops, ok, i + 1)
    }
}

/// Whether a plan stops on the failure of a command: every kind stops
/// except commands allowed to fail.
pub fn must_stop(kind: OpKind, succeeded: bool) -> (r: bool)
    ensures
        r == spec_must_stop(kind, succeeded),
{
    !succeeded && !matches!(kind, OpKind::RunIgnoringFailure)
}

/// A command that only settles state: it sets a policy, or inserts a rule if absent.
pub open spec fn settles(op: (OpKind, Seq<Seq<char>>)) -> bool {
    op.0 == OpKind::InsertIfAbsent || is_policy_op(op.1)
}

/// The last target a plan sets for `chain`, if it sets one.
pub open spec fn last_policy(ops: Seq<(OpKind, Seq<Seq<char>>)>, chain: Seq<char>) -> Option<Seq<char>>
    decreases ops.len(),
{
    if ops.len() == 0 {
        None
    } else if ops.last().0 != OpKind::InsertIfAbsent && is_policy_op(ops.last().1) && ops.last().1[1] == chain {
        Some(ops.last().1[2])
    } else {
        last_policy(ops.drop_last(), chain)
    }
}

proof fn lemma_run_all_policy(s: RuleSet, ops: Seq<(OpKind, Seq<Seq<char>>)>, chain: Seq<char>)
    ensures
        run_all(s, ops).policies.dom().contains(chain)
            == (s.policies.dom().contains(chain) || last_policy(ops, chain) is Some),
        run_all(s, ops).policies.dom().contains(chain) ==> run_all(s, ops).policies[chain] == match last_policy(ops, chain) {
            Some(t) => t,
            None => s.policies[chain],
        },
    decreases ops.len(),
{
    if ops.len() > 0 {
        lemma_run_all_policy(s, ops.drop_last(), chain);
    }
}

proof fn lemma_run_all_keeps_and_inserts(s: RuleSet, ops: Seq<(OpKind, Seq<Seq<char>>)>)
    requires
        forall|i: int| 0 <= i < ops.len() ==> settles(#[trigger] ops[i]),
    ensures
        forall|r: Seq<Seq<char>>| s.rules.contains(r) ==> #[trigger] run_all(s, ops).rules.contains(r),
        forall|i: int| 0 <= i < ops.len() && ops[i].0 == OpKind::InsertIfAbsent
            ==> run_all(s, ops).rules.contains(#[trigger] ops[i].1),
    decreases ops.len(),
{
    if ops.len() > 0 {
        let init = ops.drop_last();
        assert forall|i: int| 0 <= i < init.len() implies settles(#[trigger] init[i]) by {
            assert(init[i] == ops[i]);
        }
        lemma_run_all_keeps_and_inserts(s, init);
        let t = run_all(s, init);
        let last = ops.last();
        assert(settles(ops[ops.len() - 1]));
        assert forall|r: Seq<Seq<char>>| t.rules.contains(r) implies #[trigger] op_effect(t, last).rules.contains(r) by {
            if last.0 == OpKind::InsertIfAbsent && !t.rules.contains(last.1) {
                let k = choose|k: int| 0 <= k < t.rules.len() && t.rules[k] == r;
                assert(t.rules.push(last.1)[k] == r);
            }
        }
        assert forall|i: int| 0 <= i < ops.len() && ops[i].0 == OpKind::InsertIfAbsent
            implies run_all(s, ops).rules.contains(#[trigger] ops[i].1) by {
            if i < init.len() {
                assert(init[i] == ops[i]);
                assert(t.rules.contains(init[i].1));
            } else if !t.rules.contains(last.1) {
                assert(t.rules.push(last.1)[t.rules.len() as int] == last.1);
            }
        }
    }
}

proof fn lemma_run_all_rules_settled(t: RuleSet, ops: Seq<(OpKind, Seq<Seq<char>>)>)
    requires
        forall|i: int| 0 <= i < ops.len() ==> settles(#[trigger] ops[i]),
        forall|i: int| 0 <= i < ops.len() && ops[i].0 == OpKind::InsertIfAbsent ==> t.rules.contains(#[trigger] ops[i].1),
    ensures
        run_all(t, ops).rules == t.rules,
    decreases ops.len(),
{
    if ops.len() > 0 {
        let init = ops.drop_last();
        assert forall|i: int| 0 <= i < init.len() implies settles(#[trigger] init[i]) by {
            assert(init[i] == ops[i]);
        }
        assert forall|i: int| 0 <= i < init.len() && init[i].0 == OpKind::InsertIfAbsent
            implies t.rules.contains(#[trigger] init[i].1) by {
            assert(init[i] == ops[i]);
        }
        lemma_run_all_rules_settled(t, init);
        assert(settles(ops[ops.len() - 1]));
    }
}

/// Running a plan of settling commands a second time changes nothing: every
/// policy is set again to the value it already has, and every rule it
/// inserts is already there, so none is added twice.
pub proof fn lemma_settling_plan_idempotent(s: RuleSet, ops: Seq<(OpKind, Seq<Seq<char>>)>)
    requires
        forall|i: int| 0 <= i < ops.len() ==> settles(#[trigger] ops[i]),
    ensures
        run_all(run_all(s, ops), ops) == run_all(s, ops),
{
    let t = run_all(s, ops);
    lemma_run_all_keeps_and_inserts(s, ops);
    lemma_run_all_rules_settled(t, ops);
    let u = run_all(t, ops);
    assert forall|k: Seq<char>| #![auto] u.policies.dom().contains(k) == t.policies.dom().contains(k) by {
        lemma_run_all_policy(s, ops, k);
        lemma_run_all_policy(t, ops, k);
    }
    assert forall|k: Seq<char>| #![auto] u.policies.dom().contains(k) implies u.policies[k] == t.policies[k] by {
        lemma_run_all_policy(s, ops, k);
        lemma_run_all_policy(t, ops, k);
    }
    assert(u.policies =~= t.policies);
}

proof fn lemma_air_gap_plan_settles(c: IsolationConfig)
    ensures
        forall|i: int| 0 <= i < spec_air_gap_plan(c).len() ==> settles(#[trigger] spec_air_gap_plan(c)[i]),
{
    let p = spec_air_gap_plan(c);
    assert forall|i: int| 0 <= i < p.len() implies settles(#[trigger] p[i]) by {
        reveal_strlit("-P");
        if i >= 6 {
            let s = c.api_allowed_sources@[i - 6];
            assert(p[i] == (OpKind::InsertIfAbsent, api_source_rule(spec_decimal(c.api_port as nat), s@)));
        } else {
            assert(p[i] == air_gap_base()[i]);
        }
    }
}

proof fn lemma_whitelist_plan_settles(c: IsolationConfig)
    ensures
        forall|i: int| 0 <= i < spec_whitelist_plan(c).len() ==> settles(#[trigger] spec_whitelist_plan(c)[i]),
{
    lemma_air_gap_plan_settles(c);
    let a = spec_air_gap_plan(c);
    let p = spec_whitelist_plan(c);
    assert forall|i: int| 0 <= i < p.len() implies settles(#[trigger] p[i]) by {
        if i < a.len() {
            assert(p[i] == a[i]);
        } else {
            let e = c.whitelist@[i - a.len()];
            assert(p[i] == (OpKind::InsertIfAbsent, whitelist_rule(spec_decimal(e.port as nat), e.host@)));
        }
    }
}

/// Enforcing air-gap mode a second time leaves the firewall as the first
/// time left it: no rule is duplicated and every policy stays.
pub proof fn lemma_air_gap_idempotent(s: RuleSet, c: IsolationConfig)
    ensures
        run_all(run_all(s, spec_air_gap_plan(c)), spec_air_gap_plan(c)) == run_all(s, spec_air_gap_plan(c)),
{
    lemma_air_gap_plan_settles(c);
    lemma_settling_plan_idempotent(s, spec_air_gap_plan(c));
}

/// Enforcing whitelist mode a second time leaves the firewall unchanged.
pub proof fn lemma_whitelist_idempotent(s: RuleSet, c: IsolationConfig)
    ensures
        run_all(run_all(s, spec_whitelist_plan(c)), spec_whitelist_plan(c)) == run_all(s, spec_whitelist_plan(c)),
{
    lemma_whitelist_plan_settles(c);
    lemma_settling_plan_idempotent(s, spec_whitelist_plan(c));
}

proof fn lemma_run_from_prefix(s: RuleSet, p: Seq<(OpKind, Seq<Seq<char>>)>, q: Seq<(OpKind, Seq<Seq<char>>)>,
    ok: Seq<bool>, i: int)
    requires
        p.len() <= q.len(),
        q.take(p.len() as int) == p,
        0 <= i <= p.len(),
        ok.len() >= q.len(),
    ensures
        run_from(s, p, ok, i).1 is Some ==> run_from(s, q, ok, i) == run_from(s, p, ok, i),
        run_from(s, p, ok, i).1 is None ==> run_from(s, q, ok, i) == run_from(run_from(s, p, ok, i).0, q, ok, p.len() as int),
    decreases p.len() - i,
{
    if i < p.len() {
        assert(q[i] == q.take(p.len() as int)[i]);
        let s2 = if ok[i] { op_effect(s, p[i]) } else { s };
        lemma_run_from_prefix(s2, p, q, ok, i + 1);
    }
}

/// Whitelist enforcement stops where air-gap enforcement stops: given the
/// same outcome for each command, a failing air-gap command ends the
/// whitelist plan at that command with the same firewall state, so no
/// whitelist rule is added; when the air-gap commands all go through, the
/// whitelist commands continue from the state they left.
pub proof fn lemma_whitelist_stops_with_air_gap(s: RuleSet, c: IsolationConfig, ok: Seq<bool>)
    requires
        ok.len() >= spec_whitelist_plan(c).len(),
    ensures
        run_from(s, spec_air_gap_plan(c), ok, 0).1 is Some
            ==> run_from(s, spec_whitelist_plan(c), ok, 0) == run_from(s, spec_air_gap_plan(c), ok, 0),
        run_from(s, spec_air_gap_plan(c), ok, 0).1 is None
            ==> run_from(s, spec_whitelist_plan(c), ok, 0) == run_from(run_from(s, spec_air_gap_plan(c), ok, 0).0,
                spec_whitelist_plan(c), ok, spec_air_gap_plan(c).len() as int),
{
    lemma_whitelist_extends_air_gap(c);
    lemma_run_from_prefix(s, spec_air_gap_plan(c), spec_whitelist_plan(c), ok, 0);
}

/// Running settling commands from `i` keeps every rule already there, adds
/// only rules the commands insert, and, when nothing stops the run and no
/// command is allowed to fail, leaves every inserted rule in place.
proof fn lemma_run_from_settling(s: RuleSet, ops: Seq<(OpKind, Seq<Seq<char>>)>, ok: Seq<bool>, i: int)
    requires
        forall|j: int| 0 <= j < ops.len() ==> settles(#[trigger] ops[j]),
        0 <= i <= ops.len(),
        ok.len() >= ops.len(),
    ensures
        forall|r: Seq<Seq<char>>| #[trigger] run_from(s, ops, ok, i).0.rules.contains(r)
            ==> s.rules.contains(r) || exists|j: int| i <= j < ops.len() && (#[trigger] ops[j]).1 == r,
        forall|r: Seq<Seq<char>>| s.rules.contains(r) ==> #[trigger] run_from(s, ops, ok, i).0.rules.contains(r),
        run_from(s, ops, ok, i).1 is None
            && (forall|j: int| 0 <= j < ops.len() ==> (#[trigger] ops[j]).0 != OpKind::RunIgnoringFailure)
            ==> forall|j: int| i <= j < ops.len() && ops[j].0 == OpKind::InsertIfAbsent
                ==> run_from(s, ops, ok, i).0.rules.contains(#[trigger] ops[j].1),
    decreases ops.len() - i,
{
    if i < ops.len() && !spec_must_stop(ops[i].0, ok[i]) {
        let op = ops[i];
        let s2 = if ok[i] { op_effect(s, op) } else { s };
        assert(settles(op));
        lemma_run_from_settling(s2, ops, ok, i + 1);
        let t = run_from(s, ops, ok, i).0;
        assert(t == run_from(s2, ops, ok, i + 1).0);
        assert forall|r: Seq<Seq<char>>| s.rules.contains(r) implies #[trigger] s2.rules.contains(r) by {
            if ok[i] && op.0 == OpKind::InsertIfAbsent && !s.rules.contains(op.1) {
                let k = choose|k: int| 0 <= k < s.rules.len() && s.rules[k] == r;
                assert(s.rules.push(op.1)[k] == r);
            }
        }
        assert forall|r: Seq<Seq<char>>| #[trigger] s2.rules.contains(r) implies s.rules.contains(r) || op.1 == r by {
            if ok[i] && op.0 == OpKind::InsertIfAbsent && !s.rules.contains(op.1) {
                let k = choose|k: int| 0 <= k < s.rules.push(op.1).len() && s.rules.push(op.1)[k] == r;
                if k < s.rules.len() {
                    assert(s.rules[k] == r);
                }
            }
        }
        assert forall|r: Seq<Seq<char>>| #[trigger] t.rules.contains(r)
            implies s.rules.contains(r) || exists|j: int| i <= j < ops.len() && (#[trigger] ops[j]).1 == r by {
            if !s2.rules.contains(r) {
                let j = choose|j: int| i + 1 <= j < ops.len() && (#[trigger] ops[j]).1 == r;
                assert(i <= j < ops.len() && ops[j].1 == r);
            } else if !s.rules.contains(r) {
                assert(ops[i].1 == r);
            }
        }
        if run_from(s, ops, ok, i).1 is None
            && (forall|j: int| 0 <= j < ops.len() ==> (#[trigger] ops[j]).0 != OpKind::RunIgnoringFailure) {
            assert(ops[i].0 != OpKind::RunIgnoringFailure);
            assert(ok[i]);
            if op.0 == OpKind::InsertIfAbsent {
                assert(s2.rules.contains(op.1)) by {
                    if !s.rules.contains(op.1) {
                        assert(s.rules.push(op.1)[s.rules.len() as int] == op.1);
                    }
                }
            }
            assert forall|j: int| i <= j < ops.len() && ops[j].0 == OpKind::InsertIfAbsent
                implies t.rules.contains(#[trigger] ops[j].1) by {
                if j == i {
                    assert(s2.rules.contains(ops[i].1));
                }
            }
        }
    }
}

proof fn lemma_whitelist_plan_kinds(c: IsolationConfig)
    ensures
        forall|j: int| 0 <= j < spec_whitelist_plan(c).len()
            ==> (#[trigger] spec_whitelist_plan(c)[j]).0 != OpKind::RunIgnoringFailure,
{
    lemma_whitelist_extends_air_gap(c);
    let a = spec_air_gap_plan(c);
    let p = spec_whitelist_plan(c);
    assert forall|j: int| 0 <= j < p.len() implies (#[trigger] p[j]).0 != OpKind::RunIgnoringFailure by {
        if j < 6 {
            assert(p[j] == a[j]);
            assert(a[j] == air_gap_base()[j]);
        } else if j < a.len() {
            assert(p[j] == a[j]);
        }
    }
}

/// No whitelist rule is a rule of air-gap enforcement.
proof fn lemma_whitelist_rule_not_air_gap(c: IsolationConfig, port: Seq<char>, host: Seq<char>)
    ensures
        forall|j: int| 0 <= j < spec_air_gap_plan(c).len()
            ==> (#[trigger] spec_air_gap_plan(c)[j]).1 != whitelist_rule(port, host),
{
    reveal_strlit("INPUT");
    reveal_strlit("OUTPUT");
    let a = spec_air_gap_plan(c);
    let w = whitelist_rule(port, host);
    assert forall|j: int| 0 <= j < a.len() implies (#[trigger] a[j]).1 != w by {
        if j < 6 {
            assert(a[j] == air_gap_base()[j]);
            assert(a[j].1.len() != w.len());
        } else {
            let src = c.api_allowed_sources@[j - 6];
            assert(a[j].1 == api_source_rule(spec_decimal(c.api_port as nat), src@));
            assert(a[j].1[1] == "INPUT"@ && w[1] == "OUTPUT"@);
            assert("INPUT"@.len() != "OUTPUT"@.len());
        }
    }
}

/// Whitelist enforcement on the firewall. When an air-gap command fails,
/// the whitelist plan stops too, and a whitelist rule that was not there
/// before is still not there. When nothing stops the plan, every rule of
/// air-gap enforcement and every whitelist rule is in place.
pub proof fn lemma_whitelist_enforcement_rules(s: RuleSet, c: IsolationConfig, ok: Seq<bool>)
    requires
        ok.len() >= spec_whitelist_plan(c).len(),
    ensures
        run_from(s, spec_air_gap_plan(c), ok, 0).1 is Some ==> {
            &&& run_from(s, spec_whitelist_plan(c), ok, 0).1 is Some
            &&& forall|k: int| 0 <= k < c.whitelist@.len()
                && !s.rules.contains(whitelist_rule(spec_decimal(c.whitelist@[k].port as nat), c.whitelist@[k].host@))
                ==> !run_from(s, spec_whitelist_plan(c), ok, 0).0.rules.contains(
                    whitelist_rule(spec_decimal((#[trigger] c.whitelist@[k]).port as nat), c.whitelist@[k].host@))
        },
        run_from(s, spec_whitelist_plan(c), ok, 0).1 is None ==>
            forall|j: int| 0 <= j < spec_whitelist_plan(c).len() && spec_whitelist_plan(c)[j].0 == OpKind::InsertIfAbsent
                ==> run_from(s, spec_whitelist_plan(c), ok, 0).0.rules.contains(#[trigger] spec_whitelist_plan(c)[j].1),
{
    let a = spec_air_gap_plan(c);
    let p = spec_whitelist_plan(c);
    lemma_whitelist_stops_with_air_gap(s, c, ok);
    lemma_air_gap_plan_settles(c);
    lemma_whitelist_plan_settles(c);
    lemma_whitelist_plan_kinds(c);
    lemma_whitelist_extends_air_gap(c);
    lemma_run_from_settling(s, p, ok, 0);
    if run_from(s, a, ok, 0).1 is Some {
        lemma_run_from_settling(s, a, ok, 0);
        assert forall|k: int| 0 <= k < c.whitelist@.len()
            && !s.rules.contains(whitelist_rule(spec_decimal(c.whitelist@[k].port as nat), c.whitelist@[k].host@))
            implies !run_from(s, p, ok, 0).0.rules.contains(
                whitelist_rule(spec_decimal((#[trigger] c.whitelist@[k]).port as nat), c.whitelist@[k].host@)) by {
            let w = whitelist_rule(spec_decimal(c.whitelist@[k].port as nat), c.whitelist@[k].host@);
            lemma_whitelist_rule_not_air_gap(c, spec_decimal(c.whitelist@[k].port as nat), c.whitelist@[k].host@);
            if run_from(s, a, ok, 0).0.rules.contains(w) {
                let j = choose|j: int| 0 <= j < a.len() && (#[trigger] a[j]).1 == w;
                assert(a[j].1 != w);
            }
        }
    }
}

} // verus!
