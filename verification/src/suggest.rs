//! "Did you mean" suggestions for mistyped options, and the hints shown
//! beneath CLI errors.

use vstd::prelude::*;
use crate::text::{chars_of, lowercase, spec_lowercase, spec_contains, contains_str};
use crate::text::chars_equal;

verus! {

/// Levenshtein distance between the first `i` characters of `a` and the
/// first `j` characters of `b`.
pub open spec fn lev(a: Seq<char>, b: Seq<char>, i: nat, j: nat) -> nat
    decreases i + j,
{
    if i == 0 {
        j
    } else if j == 0 {
        i
    } else if a[i - 1] == b[j - 1] {
        lev(a, b, (i - 1) as nat, (j - 1) as nat)
    } else {
        let sub = lev(a, b, (i - 1) as nat, (j - 1) as nat);
        let del = lev(a, b, (i - 1) as nat, j);
        let ins = lev(a, b, i, (j - 1) as nat);
        let m1 = if sub <= del { sub } else { del };
        1 + if m1 <= ins { m1 } else { ins }
    }
}

/// Levenshtein distance between two character sequences.
pub open spec fn spec_edit_distance(a: Seq<char>, b: Seq<char>) -> nat {
    lev(a, b, a.len(), b.len())
}

proof fn lemma_lev_bound(a: Seq<char>, b: Seq<char>, i: nat, j: nat)
    ensures
        lev(a, b, i, j) <= if i >= j { i } else { j },
    decreases i + j,
{
    if i > 0 && j > 0 {
        lemma_lev_bound(a, b, (i - 1) as nat, (j - 1) as nat);
        lemma_lev_bound(a, b, (i - 1) as nat, j);
        lemma_lev_bound(a, b, i, (j - 1) as nat);
    }
}

/// Levenshtein distance over characters (insert, delete, substitute, each costing one).
pub fn edit_distance(a: &str, b: &str) -> (d: usize)
    ensures
        d == spec_edit_distance(a@, b@),
{
    let av = chars_of(a);
    let bv = chars_of(b);
    let m = av.len();
    let n = bv.len();
    let mut prev: Vec<usize> = Vec::new();
    prev.push(0);
    let mut j: usize = 0;
    while j < n
        invariant
            n == bv@.len(),
            0 <= j <= n,
            prev@.len() == j + 1,
            forall|k: int| 0 <= k <= j ==> prev@[k] == lev(av@, bv@, 0, k as nat),
        decreases n - j,
    {
        j = j + 1;
        prev.push(j);
    }
    let mut i: usize = 0;
    while i < m
        invariant
            m == av@.len(),
            n == bv@.len(),
            0 <= i <= m,
            prev@.len() == n + 1,
            forall|k: int| 0 <= k <= n ==> prev@[k] == lev(av@, bv@, i as nat, k as nat),
        decreases m - i,
    {
        let row = i + 1;
        let mut cur: Vec<usize> = Vec::new();
        cur.push(row);
        let mut j: usize = 0;
        while j < n
            invariant
                m == av@.len(),
                n == bv@.len(),
                0 <= i < m,
                row == i + 1,
                0 <= j <= n,
                prev@.len() == n + 1,
                cur@.len() == j + 1,
                forall|k: int| 0 <= k <= n ==> prev@[k] == lev(av@, bv@, i as nat, k as nat),
                forall|k: int| 0 <= k <= j ==> cur@[k] == lev(av@, bv@, row as nat, k as nat),
            decreases n - j,
        {
            proof {
                lemma_lev_bound(av@, bv@, i as nat, j as nat);
            }
            let v = if av[i] == bv[j] {
                prev[j]
            } else {
                let sub = prev[j];
                let del = prev[j + 1];
                let ins = cur[j];
                let m1 = if sub <= del { sub } else { del };
                1 + if m1 <= ins { m1 } else { ins }
            };
            cur.push(v);
            j = j + 1;
        }
        prev = cur;
        i = row;
    }
    prev[n]
}

/// The characters of each option.
pub open spec fn option_views(options: Seq<&str>) -> Seq<Seq<char>> {
    options.map_values(|o: &str| o@)
}

/// Distance between the lowercased input and the lowercased option.
pub open spec fn suggestion_distance(input: Seq<char>, option: Seq<char>) -> nat {
    spec_edit_distance(spec_lowercase(input), spec_lowercase(option))
}

/// Index of the first option equal to the input ignoring case.
pub open spec fn is_first_exact(input: Seq<char>, opts: Seq<Seq<char>>, k: int) -> bool {
    &&& 0 <= k < opts.len()
    &&& spec_lowercase(opts[k]) == spec_lowercase(input)
    &&& forall|j: int| 0 <= j < k ==> spec_lowercase(#[trigger] opts[j]) != spec_lowercase(input)
}

/// Index of the first option at the least distance, provided that distance is at most two.
pub open spec fn is_first_nearest(input: Seq<char>, opts: Seq<Seq<char>>, k: int) -> bool {
    &&& 0 <= k < opts.len()
    &&& suggestion_distance(input, opts[k]) <= 2
    &&& forall|j: int| 0 <= j < opts.len() && suggestion_distance(input, #[trigger] opts[j]) <= 2
            ==> suggestion_distance(input, opts[k]) <= suggestion_distance(input, opts[j])
    &&& forall|j: int| 0 <= j < k ==> suggestion_distance(input, #[trigger] opts[j]) > suggestion_distance(input, opts[k])
}

/// The suggestion among `opts` for `input`: the first option equal to it
/// ignoring case; failing that, the first option at the least edit distance,
/// when that distance is at most two; else none.
pub open spec fn spec_suggestion(input: Seq<char>, opts: Seq<Seq<char>>) -> Option<Seq<char>> {
    if exists|k: int| is_first_exact(input, opts, k) {
        Some(opts[choose|k: int| is_first_exact(input, opts, k)])
    } else if exists|k: int| is_first_nearest(input, opts, k) {
        Some(opts[choose|k: int| is_first_nearest(input, opts, k)])
    } else {
        None
    }
}

/// The characters of an optional string slice.
pub open spec fn opt_str_view(o: Option<&str>) -> Option<Seq<char>> {
    match o {
        Some(s) => Some(s@),
        None => None,
    }
}

proof fn lemma_first_exact_unique(input: Seq<char>, opts: Seq<Seq<char>>, a: int, b: int)
    requires
        is_first_exact(input, opts, a),
        is_first_exact(input, opts, b),
    ensures
        a == b,
{
    if a < b {
        assert(spec_lowercase(opts[a]) != spec_lowercase(input));
    } else if b < a {
        assert(spec_lowercase(opts[b]) != spec_lowercase(input));
    }
}

proof fn lemma_first_nearest_unique(input: Seq<char>, opts: Seq<Seq<char>>, a: int, b: int)
    requires
        is_first_nearest(input, opts, a),
        is_first_nearest(input, opts, b),
    ensures
        a == b,
{
    if a < b {
        assert(suggestion_distance(input, opts[a]) > suggestion_distance(input, opts[b]));
        assert(suggestion_distance(input, opts[a]) <= suggestion_distance(input, opts[b]));
    } else if b < a {
        assert(suggestion_distance(input, opts[b]) > suggestion_distance(input, opts[a]));
        assert(suggestion_distance(input, opts[b]) <= suggestion_distance(input, opts[a]));
    }
}

/// An exact match found at `k` is the suggestion.
proof fn lemma_suggestion_exact(input: Seq<char>, opts: Seq<Seq<char>>, k: int)
    requires
        is_first_exact(input, opts, k),
    ensures
        spec_suggestion(input, opts) == Some(opts[k]),
{
    let c = choose|k: int| is_first_exact(input, opts, k);
    lemma_first_exact_unique(input, opts, c, k);
}

/// With no exact match, the first nearest option at `k` is the suggestion.
proof fn lemma_suggestion_nearest(input: Seq<char>, opts: Seq<Seq<char>>, k: int)
    requires
        forall|j: int| 0 <= j < opts.len() ==> spec_lowercase(#[trigger] opts[j]) != spec_lowercase(input),
        is_first_nearest(input, opts, k),
    ensures
        spec_suggestion(input, opts) == Some(opts[k]),
{
    assert(!exists|k: int| is_first_exact(input, opts, k)) by {
        if exists|k: int| is_first_exact(input, opts, k) {
            let c = choose|k: int| is_first_exact(input, opts, k);
            assert(spec_lowercase(opts[c]) != spec_lowercase(input));
        }
    }
    let c = choose|k: int| is_first_nearest(input, opts, k);
    lemma_first_nearest_unique(input, opts, c, k);
}

/// With no match and no option within two edits, there is no suggestion.
proof fn lemma_suggestion_none(input: Seq<char>, opts: Seq<Seq<char>>)
    requires
        forall|j: int| 0 <= j < opts.len() ==> spec_lowercase(#[trigger] opts[j]) != spec_lowercase(input),
        forall|j: int| 0 <= j < opts.len() ==> suggestion_distance(input, #[trigger] opts[j]) > 2,
    ensures
        spec_suggestion(input, opts) is None,
{
    assert(!exists|k: int| is_first_exact(input, opts, k)) by {
        if exists|k: int| is_first_exact(input, opts, k) {
            let c = choose|k: int| is_first_exact(input, opts, k);
            assert(spec_lowercase(opts[c]) != spec_lowercase(input));
        }
    }
    assert(!exists|k: int| is_first_nearest(input, opts, k)) by {
        if exists|k: int| is_first_nearest(input, opts, k) {
            let c = choose|k: int| is_first_nearest(input, opts, k);
            assert(suggestion_distance(input, opts[c]) > 2);
        }
    }
}

/// The closest option to `input`, matching case-insensitively: an exact match
/// if there is one, else the first option at the least edit distance, and
/// none when every option is more than two edits away.
pub fn did_you_mean<'a>(input: &str, options: &[&'a str]) -> (r: Option<&'a str>)
    ensures
        ({
            let opts = option_views(options@);
            match r {
                Some(o) => exists|k: int| 0 <= k < options@.len() && #[trigger] options@[k] == o && (is_first_exact(input@, opts, k)
                    || ((forall|j: int| 0 <= j < opts.len() ==> spec_lowercase(#[trigger] opts[j]) != spec_lowercase(input@))
                        && is_first_nearest(input@, opts, k))),
                None => (forall|j: int| 0 <= j < opts.len() ==> spec_lowercase(#[trigger] opts[j]) != spec_lowercase(input@))
                    && (forall|j: int| 0 <= j < opts.len() ==> suggestion_distance(input@, #[trigger] opts[j]) > 2),
            }
        }),
        opt_str_view(r) == spec_suggestion(input@, option_views(options@)),
{
    let ghost opts = option_views(options@);
    let lower_s = lowercase(input);
    let lower = chars_of(lower_s.as_str());
    let mut i: usize = 0;
    while i < options.len()
        invariant
            opts == option_views(options@),
            lower@ == spec_lowercase(input@),
            0 <= i <= options@.len(),
            forall|j: int| 0 <= j < i ==> spec_lowercase(#[trigger] opts[j]) != spec_lowercase(input@),
        decreases options@.len() - i,
    {
        let o = options[i];
        let ol = lowercase(o);
        let olv = chars_of(ol.as_str());
        if chars_equal(olv.as_slice(), lower.as_slice()) {
            assert(opts[i as int] == o@);
            assert(is_first_exact(input@, opts, i as int));
            proof { lemma_suggestion_exact(input@, opts, i as int); }
            return Some(o);
        }
        assert(opts[i as int] == o@);
        i = i + 1;
    }
    let mut best: Option<(usize, usize)> = None;
    let mut k: usize = 0;
    while k < options.len()
        invariant
            opts == option_views(options@),
            opts.len() == options@.len(),
            lower_s@ == spec_lowercase(input@),
            0 <= k <= options@.len(),
            match best {
                None => forall|j: int| 0 <= j < k ==> suggestion_distance(input@, #[trigger] opts[j]) > 2,
                Some((bi, bd)) => {
                    &&& 0 <= bi < k
                    &&& bd == suggestion_distance(input@, opts[bi as int])
                    &&& bd <= 2
                    &&& forall|j: int| 0 <= j < k && suggestion_distance(input@, #[trigger] opts[j]) <= 2
                            ==> bd <= suggestion_distance(input@, opts[j])
                    &&& forall|j: int| 0 <= j < bi ==> suggestion_distance(input@, #[trigger] opts[j]) > bd
                },
            },
        decreases options@.len() - k,
    {
        let o = options[k];
        let ol = lowercase(o);
        let d = edit_distance(lower_s.as_str(), ol.as_str());
        assert(opts[k as int] == o@);
        if d <= 2 {
            match best {
                None => {
                    best = Some((k, d));
                },
                Some((bi, bd)) => {
                    if d < bd {
                        best = Some((k, d));
                    }
                },
            }
        }
        k = k + 1;
    }
    match best {
        None => {
            proof { lemma_suggestion_none(input@, opts); }
            None
        },
        Some((bi, bd)) => {
            assert(is_first_nearest(input@, opts, bi as int));
            proof { lemma_suggestion_nearest(input@, opts, bi as int); }
            assert(opts[bi as int] == options@[bi as int]@);
            Some(options[bi])
        },
    }
}

/// The advice printed beneath a CLI error, chosen from the error text.
#[derive(Debug, Clone, Copy, PartialEq, Eq, Structural)]
pub enum Hint {
    /// The daemon could not be reached.
    DaemonUnreachable,
    /// The daemon asked for credentials.
    AuthRequired,
    /// The daemon refused the credentials given.
    AccessDenied,
    /// A model was not found.
    ModelNotFound,
    /// Retrieval-augmented generation is switched off on the daemon.
    RagDisabled,
    /// A model id is not in `name:tag` form.
    ModelIdFormat,
    /// The daemon answered too slowly.
    TimedOut,
}

/// The hint for an error message, by the phrases its lowercased text contains.
pub open spec fn spec_hint_for(msg: Seq<char>) -> Option<Hint> {
    let m = spec_lowercase(msg);
    if spec_contains(m, "connection refused"@) || spec_contains(m, "cannot reach"@)
        || spec_contains(m, "could not reach"@) || spec_contains(m, "os error 61"@)
        || spec_contains(m, "os error 111"@) {
        Some(Hint::DaemonUnreachable)
    } else if spec_contains(m, "401"@) || spec_contains(m, "unauthorized"@) {
        Some(Hint::AuthRequired)
    } else if spec_contains(m, "403"@) || spec_contains(m, "forbidden"@) {
        Some(Hint::AccessDenied)
    } else if spec_contains(m, "404"@) && (spec_contains(m, "model"@) || spec_contains(m, "not found"@)) {
        Some(Hint::ModelNotFound)
    } else if spec_contains(m, "rag is not enabled"@) || spec_contains(m, "rag not enabled"@) {
        Some(Hint::RagDisabled)
    } else if spec_contains(m, "name:tag"@) || spec_contains(m, "invalid model id"@) {
        Some(Hint::ModelIdFormat)
    } else if spec_contains(m, "timed out"@) || spec_contains(m, "deadline"@) {
        Some(Hint::TimedOut)
    } else {
        None
    }
}

/// Chooses the hint for an error message.
pub fn hint_for(msg: &str) -> (r: Option<Hint>)
    ensures
        r == spec_hint_for(msg@),
{
    let ls = lowercase(msg);
    let m = chars_of(ls.as_str());
    let s = m.as_slice();
    if contains_str(s, "connection refused") || contains_str(s, "cannot reach")
        || contains_str(s, "could not reach") || contains_str(s, "os error 61")
        || contains_str(s, "os error 111") {
        Some(Hint::DaemonUnreachable)
    } else if contains_str(s, "401") || contains_str(s, "unauthorized") {
        Some(Hint::AuthRequired)
    } else if contains_str(s, "403") || contains_str(s, "forbidden") {
        Some(Hint::AccessDenied)
    } else if contains_str(s, "404") && (contains_str(s, "model") || contains_str(s, "not found")) {
        Some(Hint::ModelNotFound)
    } else if contains_str(s, "rag is not enabled") || contains_str(s, "rag not enabled") {
        Some(Hint::RagDisabled)
    } else if contains_str(s, "name:tag") || contains_str(s, "invalid model id") {
        Some(Hint::ModelIdFormat)
    } else if contains_str(s, "timed out") || contains_str(s, "deadline") {
        Some(Hint::TimedOut)
    } else {
        None
    }
}

} // verus!
