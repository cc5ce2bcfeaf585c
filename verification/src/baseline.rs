//! Behavioural baselines: where they are stored and how a run of test
//! vectors is judged against them.

use vstd::prelude::*;
use crate::text::{join_path, spec_join_path, append_str, append_decimal, spec_decimal, concat2, chars_of, string_of,
    find_char, index_of_char, starts_with_chars, spec_starts_with};
use crate::digest::{output_sha256, spec_text_sha256};

verus! {

/// What to do when a model's behaviour drifts from its baseline.
#[derive(Debug, Clone, Copy, PartialEq, Eq, Structural)]
pub enum DriftAction {
    /// Serve the model as normal; the drift is only recorded.
    Allow,
    /// Record the drift and warn.
    Warn,
    /// Refuse to serve the model.
    Refuse,
}

/// The lower-case name of a drift action.
pub open spec fn spec_drift_action_name(a: DriftAction) -> Seq<char> {
    match a {
        DriftAction::Allow => "allow"@,
        DriftAction::Warn => "warn"@,
        DriftAction::Refuse => "refuse"@,
    }
}

impl DriftAction {
    /// The action's lower-case name, as recorded in drift events.
    pub fn as_str(&self) -> (r: &'static str)
        ensures
            r@ == spec_drift_action_name(*self),
    {
        match self {
            DriftAction::Allow => "allow",
            DriftAction::Warn => "warn",
            DriftAction::Refuse => "refuse",
        }
    }
}

/// The drift action used when the configuration names none.
pub fn default_drift_action() -> (r: DriftAction)
    ensures
        r == DriftAction::Warn,
{
    DriftAction::Warn
}

/// Finds and judges behavioural baselines.
#[derive(Debug, Clone)]
pub struct BaselineChecker {
    pub baselines_dir: String,
    pub drift_action: DriftAction,
}

/// How a run of baseline vectors came out.
#[derive(Debug, Clone, Copy, PartialEq, Eq, Structural)]
pub struct BaselineReport {
    pub passed: usize,
    pub failed: usize,
    /// At most the tolerated number of vectors failed.
    pub ok: bool,
    /// The drift action recorded, when the run was not ok.
    pub drift_recorded: Option<DriftAction>,
    /// Whether the model must not be loaded.
    pub refuse: bool,
}

/// Whether a vector passed: it produced output whose hash is the expected one.
pub open spec fn vector_passed(output: Option<String>, expected: Seq<char>) -> bool {
    match output {
        Some(o) => spec_text_sha256(o@) == expected,
        None => false,
    }
}

/// How many of the first `n` vectors passed.
pub open spec fn passed_count(outputs: Seq<Option<String>>, expected: Seq<String>, n: int) -> nat
    decreases n,
{
    if n <= 0 {
        0
    } else {
        passed_count(outputs, expected, n - 1) + if vector_passed(outputs[n - 1], expected[n - 1]@) { 1nat } else { 0nat }
    }
}

/// The verdict on a run with the given counts.
pub open spec fn spec_conclude(passed: usize, failed: usize, max_mismatches: usize, action: DriftAction) -> BaselineReport {
    let ok = failed <= max_mismatches;
    BaselineReport {
        passed,
        failed,
        ok,
        drift_recorded: if ok { None } else { Some(action) },
        refuse: !ok && action == DriftAction::Refuse,
    }
}

impl BaselineChecker {
    /// A checker looking in `baselines_dir`, or in `baselines` under the data directory.
    pub fn new(data_dir: &str, baselines_dir: Option<&str>, drift_action: DriftAction) -> (r: BaselineChecker)
        ensures
            r.baselines_dir@ == match baselines_dir {
                Some(d) => d@,
                None => spec_join_path(data_dir@, "baselines"@),
            },
            r.drift_action == drift_action,
    {
        let dir = match baselines_dir {
            Some(d) => d.to_owned(),
            None => join_path(data_dir, "baselines"),
        };
        BaselineChecker { baselines_dir: dir, drift_action }
    }

    /// Where the baseline of the model with the given digest is stored.
    pub fn baseline_path(&self, model_sha256: &str) -> (r: String)
        ensures
            r@ == spec_join_path(self.baselines_dir@, model_sha256@ + ".mrn-baseline"@),
    {
        let name = concat2(model_sha256, ".mrn-baseline");
        join_path(self.baselines_dir.as_str(), name.as_str())
    }

    /// Judges a run: it is ok when at most `max_mismatches` vectors failed;
    /// otherwise the configured drift action is recorded, and with
    /// `Refuse` the model must not be loaded.
    pub fn conclude(&self, passed: usize, failed: usize, max_mismatches: usize) -> (r: BaselineReport)
        ensures
            r == spec_conclude(passed, failed, max_mismatches, self.drift_action),
    {
        let ok = failed <= max_mismatches;
        BaselineReport {
            passed,
            failed,
            ok,
            drift_recorded: if ok { None } else { Some(self.drift_action) },
            refuse: !ok && matches!(self.drift_action, DriftAction::Refuse),
        }
    }
}

/// Counts the vectors that passed and failed: a vector passes when the
/// engine produced output (`Some`) whose SHA-256 hex is the expected one;
/// an engine error (`None`) or another hash fails it.
pub fn tally_vectors(outputs: &[Option<String>], expected: &[String]) -> (r: (usize, usize))
    requires
        outputs@.len() == expected@.len(),
    ensures
        r.0 == passed_count(outputs@, expected@, outputs@.len() as int),
        r.0 + r.1 == outputs@.len(),
{
    let mut passed: usize = 0;
    let mut failed: usize = 0;
    let mut i: usize = 0;
    while i < outputs.len()
        invariant
            outputs@.len() == expected@.len(),
            0 <= i <= outputs@.len(),
            passed == passed_count(outputs@, expected@, i as int),
            passed + failed == i,
        decreases outputs@.len() - i,
    {
        let ok = match &outputs[i] {
            Some(o) => {
                let got = output_sha256(o.as_str());
                crate::text::str_eq(got.as_str(), expected[i].as_str())
            },
            None => false,
        };
        if ok {
            passed = passed + 1;
        } else {
            failed = failed + 1;
        }
        i = i + 1;
    }
    (passed, failed)
}

/// The request id under which baseline vector `index` of a model runs.
pub fn baseline_request_id(model_id: &str, index: u64) -> (r: String)
    ensures
        r@ == "baseline-"@ + model_id@ + "-"@ + spec_decimal(index as nat),
{
    let mut r = String::new();
    append_str(&mut r, "baseline-");
    append_str(&mut r, model_id);
    append_str(&mut r, "-");
    append_decimal(&mut r, index);
    r
}

/// The error raised when drift makes the model refused.
pub fn drift_refusal_message(model_id: &str, failed: u64, total: u64) -> (r: String)
    ensures
        r@ == "BEHAVIORAL DRIFT detected for "@ + model_id@ + ": "@ + spec_decimal(failed as nat) + "/"@
            + spec_decimal(total as nat) + " vectors failed \u{2014} refusing to load (drift_action=refuse)"@,
{
    let mut r = String::new();
    append_str(&mut r, "BEHAVIORAL DRIFT detected for ");
    append_str(&mut r, model_id);
    append_str(&mut r, ": ");
    append_decimal(&mut r, failed);
    append_str(&mut r, "/");
    append_decimal(&mut r, total);
    append_str(&mut r, " vectors failed \u{2014} refusing to load (drift_action=refuse)");
    r
}

/// Where the key that signs baselines is kept.
pub fn baseline_signing_key_path(data_dir: &str) -> (r: String)
    ensures
        r@ == spec_join_path(data_dir@, "baseline_signing.key"@),
{
    join_path(data_dir, "baseline_signing.key")
}

/// Where the public half of the baseline signing key is kept.
pub fn baseline_verifying_key_path(data_dir: &str) -> (r: String)
    ensures
        r@ == spec_join_path(data_dir@, "baseline_signing.pub"@),
{
    join_path(data_dir, "baseline_signing.pub")
}

/// A run is refused only when it is not ok and the action is `Refuse`;
/// an ok run records no drift.
pub proof fn lemma_conclude_refuses_only_on_drift(passed: usize, failed: usize, max_mismatches: usize, action: DriftAction)
    ensures
        spec_conclude(passed, failed, max_mismatches, action).refuse
            <==> (failed > max_mismatches && action == DriftAction::Refuse),
        spec_conclude(passed, failed, max_mismatches, action).ok ==> spec_conclude(passed, failed, max_mismatches, action).drift_recorded is None,
{
}

/// A `PROMPT=EXPECTED_TEXT` vector argument split at its first `=`.
pub open spec fn spec_split_vector(v: Seq<char>) -> Option<(Seq<char>, Seq<char>)> {
    match index_of_char(v, '=') {
        Some(i) => Some((v.take(i), v.skip(i + 1))),
        None => None,
    }
}

/// The prompt of a vector argument.
pub open spec fn vector_prompt(v: Seq<char>) -> Seq<char> {
    match spec_split_vector(v) {
        Some((p, _)) => p,
        None => Seq::empty(),
    }
}

/// The expected text of a vector argument.
pub open spec fn vector_expected(v: Seq<char>) -> Seq<char> {
    match spec_split_vector(v) {
        Some((_, e)) => e,
        None => Seq::empty(),
    }
}

/// What `baseline create` makes of its vector arguments: for each, the
/// prompt and the SHA-256 hex of the expected text, or the refusal of the
/// first malformed one, or of an empty list.
pub open spec fn spec_parse_vectors(vs: Seq<String>) -> Result<Seq<(Seq<char>, Seq<char>)>, Seq<char>>
    decreases vs.len(),
{
    if vs.len() == 0 {
        Err("at least one --vector is required"@)
    } else {
        parse_vectors_from(vs, 0)
    }
}

/// The vectors from index `i` on.
pub open spec fn parse_vectors_from(vs: Seq<String>, i: int) -> Result<Seq<(Seq<char>, Seq<char>)>, Seq<char>>
    decreases vs.len() - i,
{
    if i < 0 || i >= vs.len() {
        Ok(Seq::empty())
    } else {
        match spec_split_vector(vs[i]@) {
            None => Err("vector '"@ + vs[i]@ + "' must be in form PROMPT=EXPECTED_TEXT"@),
            Some((prompt, expected)) => match parse_vectors_from(vs, i + 1) {
                Ok(rest) => Ok(seq![(prompt, spec_text_sha256(expected))] + rest),
                Err(e) => Err(e),
            },
        }
    }
}

/// Reads the `PROMPT=EXPECTED_TEXT` arguments of `baseline create` into
/// prompts and expected output hashes.
pub fn parse_baseline_vectors(vectors: &[String]) -> (r: Result<Vec<(String, String)>, String>)
    ensures
        match r {
            Ok(v) => spec_parse_vectors(vectors@) == Ok::<Seq<(Seq<char>, Seq<char>)>, Seq<char>>(
                v@.map_values(|p: (String, String)| (p.0@, p.1@))),
            Err(e) => spec_parse_vectors(vectors@) == Err::<Seq<(Seq<char>, Seq<char>)>, Seq<char>>(e@),
        },
{
    if vectors.len() == 0 {
        return Err("at least one --vector is required".to_owned());
    }
    let mut out: Vec<(String, String)> = Vec::new();
    let mut i: usize = 0;
    while i < vectors.len()
        invariant
            0 <= i <= vectors@.len(),
            vectors@.len() > 0,
            forall|k: int| 0 <= k < i ==> #[trigger] spec_split_vector(vectors@[k]@) is Some,
            out@.len() == i,
            forall|k: int| 0 <= k < i ==> (#[trigger] out@[k]).0@ == vector_prompt(vectors@[k]@)
                && out@[k].1@ == spec_text_sha256(vector_expected(vectors@[k]@)),
        decreases vectors@.len() - i,
    {
        let v = vectors[i].as_str();
        let cs = chars_of(v);
        match find_char(cs.as_slice(), '=') {
            None => {
                proof { lemma_parse_vectors_fail(vectors@, i as int); }
                let mut e = String::new();
                append_str(&mut e, "vector '");
                append_str(&mut e, v);
                append_str(&mut e, "' must be in form PROMPT=EXPECTED_TEXT");
                return Err(e);
            },
            Some(k) => {
                assert(k < cs.len());
                let prompt = string_of(&cs.as_slice()[0..k]);
                let expected = string_of(&cs.as_slice()[k + 1..cs.len()]);
                proof {
                    assert(prompt@ =~= v@.take(k as int));
                    assert(expected@ =~= v@.skip(k + 1));
                }
                let h = output_sha256(expected.as_str());
                out.push((prompt, h));
            },
        }
        i = i + 1;
    }
    proof {
        lemma_parse_vectors_ok(vectors@, 0);
        let rest = parse_vectors_from(vectors@, 0)->Ok_0;
        let m = out@.map_values(|p: (String, String)| (p.0@, p.1@));
        assert forall|k: int| 0 <= k < m.len() implies m[k] == rest[k] by {
            assert(rest[k] == (vector_prompt(vectors@[0 + k]@), spec_text_sha256(vector_expected(vectors@[0 + k]@))));
            assert(0 + k == k);
        }
        assert(m =~= rest);
    }
    Ok(out)
}

/// When every vector splits, parsing from `i` gives each one's prompt and hash in order.
proof fn lemma_parse_vectors_ok(vs: Seq<String>, i: int)
    requires
        0 <= i <= vs.len(),
        forall|k: int| 0 <= k < vs.len() ==> #[trigger] spec_split_vector(vs[k]@) is Some,
    ensures
        parse_vectors_from(vs, i) matches Ok(rest) && rest.len() == vs.len() - i
            && forall|k: int| 0 <= k < rest.len() ==> #[trigger] rest[k] == (vector_prompt(vs[i + k]@),
                spec_text_sha256(vector_expected(vs[i + k]@))),
    decreases vs.len() - i,
{
    if i < vs.len() {
        lemma_parse_vectors_ok(vs, i + 1);
        assert(spec_split_vector(vs[i]@) is Some);
        let rest = parse_vectors_from(vs, i + 1)->Ok_0;
        let all = parse_vectors_from(vs, i)->Ok_0;
        assert forall|k: int| 0 <= k < all.len() implies #[trigger] all[k] == (vector_prompt(vs[i + k]@),
            spec_text_sha256(vector_expected(vs[i + k]@))) by {
            if k > 0 {
                assert(all[k] == rest[k - 1]);
                assert(i + 1 + (k - 1) == i + k);
            }
        }
    }
}

/// The first vector that does not split makes parsing fail with its message.
proof fn lemma_parse_vectors_fail(vs: Seq<String>, i: int)
    requires
        0 <= i < vs.len(),
        forall|k: int| 0 <= k < i ==> #[trigger] spec_split_vector(vs[k]@) is Some,
        spec_split_vector(vs[i]@) is None,
    ensures
        spec_parse_vectors(vs) == Err::<Seq<(Seq<char>, Seq<char>)>, Seq<char>>(
            "vector '"@ + vs[i]@ + "' must be in form PROMPT=EXPECTED_TEXT"@),
{
    lemma_parse_vectors_fail_from(vs, 0, i);
}

proof fn lemma_parse_vectors_fail_from(vs: Seq<String>, j: int, i: int)
    requires
        0 <= j <= i < vs.len(),
        forall|k: int| 0 <= k < i ==> #[trigger] spec_split_vector(vs[k]@) is Some,
        spec_split_vector(vs[i]@) is None,
    ensures
        parse_vectors_from(vs, j) == Err::<Seq<(Seq<char>, Seq<char>)>, Seq<char>>(
            "vector '"@ + vs[i]@ + "' must be in form PROMPT=EXPECTED_TEXT"@),
    decreases i - j,
{
    if j < i {
        lemma_parse_vectors_fail_from(vs, j + 1, i);
        assert(spec_split_vector(vs[j]@) is Some);
    }
}

/// The index of the first registry entry whose digest starts with `prefix`.
pub fn registry_entry_index(entry_digests: &[Option<String>], prefix: &str) -> (r: Option<usize>)
    ensures
        match r {
            Some(i) => i < entry_digests@.len()
                && (entry_digests@[i as int] matches Some(d) && spec_starts_with(d@, prefix@))
                && forall|j: int| 0 <= j < i ==> !(#[trigger] entry_digests@[j] matches Some(d) && spec_starts_with(d@, prefix@)),
            None => forall|j: int| 0 <= j < entry_digests@.len() ==> !(#[trigger] entry_digests@[j] matches Some(d) && spec_starts_with(d@, prefix@)),
        },
{
    let pc = chars_of(prefix);
    let mut i: usize = 0;
    while i < entry_digests.len()
        invariant
            pc@ == prefix@,
            0 <= i <= entry_digests@.len(),
            forall|j: int| 0 <= j < i ==> !(#[trigger] entry_digests@[j] matches Some(d) && spec_starts_with(d@, prefix@)),
        decreases entry_digests@.len() - i,
    {
        match &entry_digests[i] {
            Some(d) => {
                let dc = chars_of(d.as_str());
                if starts_with_chars(dc.as_slice(), pc.as_slice()) {
                    return Some(i);
                }
            },
            None => {},
        }
        i = i + 1;
    }
    None
}

/// Distinct digests give distinct baseline files in the same directory,
/// for digests that do not start with `/` (hex digests never do). A digest
/// that starts with `/` would name a path of its own, outside the directory.
pub proof fn lemma_baseline_paths_distinct(dir: Seq<char>, a: Seq<char>, b: Seq<char>)
    requires
        a != b,
        !(a.len() > 0 && a[0] == '/'),
        !(b.len() > 0 && b[0] == '/'),
    ensures
        spec_join_path(dir, a + ".mrn-baseline"@) != spec_join_path(dir, b + ".mrn-baseline"@),
{
    reveal_strlit(".mrn-baseline");
    let ext = ".mrn-baseline"@;
    let ra = a + ext;
    let rb = b + ext;
    assert(ra[0] != '/') by {
        if a.len() == 0 { assert(ra[0] == ext[0]); } else { assert(ra[0] == a[0]); }
    }
    assert(rb[0] != '/') by {
        if b.len() == 0 { assert(rb[0] == ext[0]); } else { assert(rb[0] == b[0]); }
    }
    let p = if dir.len() == 0 { Seq::<char>::empty() } else if dir.last() == '/' { dir } else { dir.push('/') };
    assert(spec_join_path(dir, ra) =~= p + ra);
    assert(spec_join_path(dir, rb) =~= p + rb);
    if p + ra == p + rb {
        assert(ra =~= (p + ra).skip(p.len() as int));
        assert(rb =~= (p + rb).skip(p.len() as int));
        assert(a.len() == b.len());
        assert(a =~= ra.take(a.len() as int));
        assert(b =~= rb.take(b.len() as int));
    }
}

} // verus!
