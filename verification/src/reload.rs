//! What a configuration reload can apply in place, and what needs a restart.

use vstd::prelude::*;
use crate::config::{DaemonConfig, StartupPins};
use crate::isolation::args_view;
use crate::text::str_eq;

verus! {

/// The configuration the process started with, for the settings that only
/// take effect at start.
#[derive(Debug, Clone)]
pub struct StartupSnapshot {
    pub bind: String,
    pub data_dir: String,
    pub device: String,
    pub rag_enabled: bool,
    pub embedding_model: String,
    pub unix_socket: Option<String>,
    pub max_parallel: usize,
}

/// The answer to a reload request.
#[derive(Debug, Clone)]
pub struct ReloadResponse {
    pub ok: bool,
    pub path: Option<String>,
    pub applied: Vec<String>,
    pub requires_restart: Vec<String>,
}

/// Whether two path texts name the same path, comparing their components
/// as `std::path::Path` equality does.
pub uninterp spec fn spec_same_path(a: Seq<char>, b: Seq<char>) -> bool;

/// Calls `PartialEq::eq` on two `std::path::Path`s; the verdict is named by
/// `spec_same_path`, a function of the two texts alone.
#[verifier::external_body]
fn same_path(a: &str, b: &str) -> (r: bool)
    ensures
        r == spec_same_path(a@, b@),
{
    std::path::Path::new(a) == std::path::Path::new(b)
}

/// A one-item list when `b` holds, else an empty one.
pub open spec fn item(b: bool, name: Seq<char>) -> Seq<Seq<char>> {
    if b { seq![name] } else { Seq::empty() }
}

/// The characters of an optional string.
pub open spec fn opt_chars(o: Option<String>) -> Option<Seq<char>> {
    match o {
        Some(s) => Some(s@),
        None => None,
    }
}

/// The settings that changed but only take effect after a restart; a
/// setting pinned on the command line never counts as changed. RAG switched
/// on without a RAG engine also needs a restart.
pub open spec fn spec_requires_restart(cfg: DaemonConfig, snap: StartupSnapshot, pins: StartupPins, rag_engine: bool) -> Seq<Seq<char>> {
    item(cfg.bind@ != snap.bind@ && pins.bind is None, "bind"@)
        + item(!spec_same_path(cfg.data_dir@, snap.data_dir@) && pins.data_dir is None, "data_dir"@)
        + item(cfg.device@ != snap.device@ && pins.device is None, "device"@)
        + item(cfg.rag.enabled != snap.rag_enabled && pins.rag_enabled is None, "rag.enabled"@)
        + item(cfg.rag.embedding_model@ != snap.embedding_model@ && pins.embedding_model is None, "rag.embedding_model"@)
        + item(cfg.inference.max_parallel != snap.max_parallel, "inference.max_parallel"@)
        + item(opt_chars(cfg.unix_socket) != opt_chars(snap.unix_socket) && pins.unix_socket is None, "unix_socket"@)
        + item(!rag_engine && cfg.rag.enabled, "rag.enabled"@)
}

/// The settings a reload applies in place, in the order it applies them.
pub open spec fn spec_applied(pins: StartupPins, rag_engine: bool) -> Seq<Seq<char>> {
    item(pins.log_level is None, "log_level"@)
        + seq!["inference.max_queue_depth"@, "isolation"@, "assistant"@]
        + item(rag_engine, "rag"@)
        + seq!["auth"@]
}

fn push_if(v: &mut Vec<String>, b: bool, name: &str)
    ensures
        args_view(final(v)@) == args_view(old(v)@) + item(b, name@),
{
    if b {
        v.push(name.to_owned());
        assert(args_view(v@) =~= args_view(old(v)@) + item(b, name@));
    } else {
        assert(args_view(v@) =~= args_view(old(v)@) + item(b, name@));
    }
}

fn opt_str_eq(a: &Option<String>, b: &Option<String>) -> (r: bool)
    ensures
        r == (opt_chars(*a) == opt_chars(*b)),
{
    match (a, b) {
        (Some(x), Some(y)) => str_eq(x.as_str(), y.as_str()),
        (None, None) => true,
        _ => false,
    }
}

/// The answer to a reload of the configuration at `path`, once the new
/// configuration (with environment overrides and command-line pins in place)
/// has been applied: what was applied in place and what needs a restart.
/// `rag_engine` tells whether the daemon runs a RAG engine.
pub fn plan_reload(path: &str, cfg: &DaemonConfig, snapshot: &StartupSnapshot, pins: &StartupPins, rag_engine: bool) -> (r: ReloadResponse)
    ensures
        r.ok,
        r.path matches Some(p) && p@ == path@,
        args_view(r.requires_restart@) == spec_requires_restart(*cfg, *snapshot, *pins, rag_engine),
        args_view(r.applied@) == spec_applied(*pins, rag_engine),
{
    let mut requires_restart: Vec<String> = Vec::new();
    proof {
        assert(args_view(requires_restart@) =~= Seq::<Seq<char>>::empty());
    }
    push_if(&mut requires_restart, !str_eq(cfg.bind.as_str(), snapshot.bind.as_str()) && pins.bind.is_none(), "bind");
    push_if(&mut requires_restart, !same_path(cfg.data_dir.as_str(), snapshot.data_dir.as_str()) && pins.data_dir.is_none(), "data_dir");
    push_if(&mut requires_restart, !str_eq(cfg.device.as_str(), snapshot.device.as_str()) && pins.device.is_none(), "device");
    push_if(&mut requires_restart, cfg.rag.enabled != snapshot.rag_enabled && pins.rag_enabled.is_none(), "rag.enabled");
    push_if(&mut requires_restart,
        !str_eq(cfg.rag.embedding_model.as_str(), snapshot.embedding_model.as_str()) && pins.embedding_model.is_none(),
        "rag.embedding_model");
    push_if(&mut requires_restart, cfg.inference.max_parallel != snapshot.max_parallel, "inference.max_parallel");
    push_if(&mut requires_restart, !opt_str_eq(&cfg.unix_socket, &snapshot.unix_socket) && pins.unix_socket.is_none(), "unix_socket");
    push_if(&mut requires_restart, !rag_engine && cfg.rag.enabled, "rag.enabled");
    proof {
        assert(args_view(requires_restart@) =~= spec_requires_restart(*cfg, *snapshot, *pins, rag_engine));
    }
    let mut applied: Vec<String> = Vec::new();
    proof {
        assert(args_view(applied@) =~= Seq::<Seq<char>>::empty());
    }
    push_if(&mut applied, pins.log_level.is_none(), "log_level");
    push_if(&mut applied, true, "inference.max_queue_depth");
    push_if(&mut applied, true, "isolation");
    push_if(&mut applied, true, "assistant");
    push_if(&mut applied, rag_engine, "rag");
    push_if(&mut applied, true, "auth");
    proof {
        assert(args_view(applied@) =~= spec_applied(*pins, rag_engine));
    }
    ReloadResponse { ok: true, path: Some(path.to_owned()), applied, requires_restart }
}

proof fn lemma_not_in_concat(a: Seq<Seq<char>>, b: Seq<Seq<char>>, x: Seq<char>)
    requires
        !a.contains(x),
        !b.contains(x),
    ensures
        !(a + b).contains(x),
{
    if (a + b).contains(x) {
        let i = choose|i: int| 0 <= i < (a + b).len() && (a + b)[i] == x;
        if i < a.len() {
            assert(a[i] == x);
        } else {
            assert(b[i - a.len()] == x);
        }
    }
}

proof fn lemma_not_in_item(c: bool, n: Seq<char>, x: Seq<char>)
    requires
        !c || n != x,
    ensures
        !item(c, n).contains(x),
{
    if item(c, n).contains(x) {
        let i = choose|i: int| 0 <= i < item(c, n).len() && item(c, n)[i] == x;
        assert(item(c, n)[i] == n);
    }
}

/// None of the eight items of a restart list names `x` unless its own
/// condition holds and its name is `x`.
proof fn lemma_restart_excludes(cfg: DaemonConfig, snap: StartupSnapshot, pins: StartupPins, rag_engine: bool, x: Seq<char>,
    c: Seq<bool>, n: Seq<Seq<char>>)
    requires
        c.len() == 8,
        n.len() == 8,
        c[0] == (cfg.bind@ != snap.bind@ && pins.bind is None),
        c[1] == (!spec_same_path(cfg.data_dir@, snap.data_dir@) && pins.data_dir is None),
        c[2] == (cfg.device@ != snap.device@ && pins.device is None),
        c[3] == (cfg.rag.enabled != snap.rag_enabled && pins.rag_enabled is None),
        c[4] == (cfg.rag.embedding_model@ != snap.embedding_model@ && pins.embedding_model is None),
        c[5] == (cfg.inference.max_parallel != snap.max_parallel),
        c[6] == (opt_chars(cfg.unix_socket) != opt_chars(snap.unix_socket) && pins.unix_socket is None),
        c[7] == (!rag_engine && cfg.rag.enabled),
        n == seq!["bind"@, "data_dir"@, "device"@, "rag.enabled"@, "rag.embedding_model"@,
            "inference.max_parallel"@, "unix_socket"@, "rag.enabled"@],
        forall|i: int| 0 <= i < 8 ==> !(#[trigger] c[i]) || n[i] != x,
    ensures
        !spec_requires_restart(cfg, snap, pins, rag_engine).contains(x),
{
    let r = spec_requires_restart(cfg, snap, pins, rag_engine);
    assert(r == item(c[0], n[0]) + item(c[1], n[1]) + item(c[2], n[2]) + item(c[3], n[3]) + item(c[4], n[4])
        + item(c[5], n[5]) + item(c[6], n[6]) + item(c[7], n[7]));
    lemma_not_in_item(c[0], n[0], x);
    lemma_not_in_item(c[1], n[1], x);
    lemma_not_in_item(c[2], n[2], x);
    lemma_not_in_item(c[3], n[3], x);
    lemma_not_in_item(c[4], n[4], x);
    lemma_not_in_item(c[5], n[5], x);
    lemma_not_in_item(c[6], n[6], x);
    lemma_not_in_item(c[7], n[7], x);
    let a1 = item(c[0], n[0]) + item(c[1], n[1]);
    lemma_not_in_concat(item(c[0], n[0]), item(c[1], n[1]), x);
    let a2 = a1 + item(c[2], n[2]);
    lemma_not_in_concat(a1, item(c[2], n[2]), x);
    let a3 = a2 + item(c[3], n[3]);
    lemma_not_in_concat(a2, item(c[3], n[3]), x);
    let a4 = a3 + item(c[4], n[4]);
    lemma_not_in_concat(a3, item(c[4], n[4]), x);
    let a5 = a4 + item(c[5], n[5]);
    lemma_not_in_concat(a4, item(c[5], n[5]), x);
    let a6 = a5 + item(c[6], n[6]);
    lemma_not_in_concat(a5, item(c[6], n[6]), x);
    lemma_not_in_concat(a6, item(c[7], n[7]), x);
}

/// A setting pinned on the command line is never reported as needing a
/// restart: the bind address, the device and the admin socket.
pub proof fn lemma_pinned_never_requires_restart(cfg: DaemonConfig, snap: StartupSnapshot, pins: StartupPins, rag_engine: bool)
    ensures
        pins.bind is Some ==> !spec_requires_restart(cfg, snap, pins, rag_engine).contains("bind"@),
        pins.device is Some ==> !spec_requires_restart(cfg, snap, pins, rag_engine).contains("device"@),
        pins.unix_socket is Some ==> !spec_requires_restart(cfg, snap, pins, rag_engine).contains("unix_socket"@),
{
    reveal_strlit("bind");
    reveal_strlit("data_dir");
    reveal_strlit("device");
    reveal_strlit("rag.enabled");
    reveal_strlit("rag.embedding_model");
    reveal_strlit("inference.max_parallel");
    reveal_strlit("unix_socket");
    let c = seq![
        cfg.bind@ != snap.bind@ && pins.bind is None,
        !spec_same_path(cfg.data_dir@, snap.data_dir@) && pins.data_dir is None,
        cfg.device@ != snap.device@ && pins.device is None,
        cfg.rag.enabled != snap.rag_enabled && pins.rag_enabled is None,
        cfg.rag.embedding_model@ != snap.embedding_model@ && pins.embedding_model is None,
        cfg.inference.max_parallel != snap.max_parallel,
        opt_chars(cfg.unix_socket) != opt_chars(snap.unix_socket) && pins.unix_socket is None,
        !rag_engine && cfg.rag.enabled,
    ];
    let n = seq!["bind"@, "data_dir"@, "device"@, "rag.enabled"@, "rag.embedding_model"@,
        "inference.max_parallel"@, "unix_socket"@, "rag.enabled"@];
    if pins.bind is Some {
        assert forall|i: int| 0 <= i < 8 implies !(#[trigger] c[i]) || n[i] != "bind"@ by {
            if i > 0 {
                assert(n[i].len() != "bind"@.len());
            }
        }
        lemma_restart_excludes(cfg, snap, pins, rag_engine, "bind"@, c, n);
    }
    if pins.device is Some {
        assert forall|i: int| 0 <= i < 8 implies !(#[trigger] c[i]) || n[i] != "device"@ by {
            if i != 2 {
                assert(n[i].len() != "device"@.len());
            }
        }
        lemma_restart_excludes(cfg, snap, pins, rag_engine, "device"@, c, n);
    }
    if pins.unix_socket is Some {
        assert forall|i: int| 0 <= i < 8 implies !(#[trigger] c[i]) || n[i] != "unix_socket"@ by {
            if i == 3 || i == 7 {
                assert(n[i][0] != "unix_socket"@[0]);
            } else if i != 6 {
                assert(n[i].len() != "unix_socket"@.len());
            }
        }
        lemma_restart_excludes(cfg, snap, pins, rag_engine, "unix_socket"@, c, n);
    }
}

} // verus!
