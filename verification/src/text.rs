//! Character-level string helpers shared by the rest of the library.

use vstd::prelude::*;

verus! {

/// Appends one character to a `String` with `String::push`; the contract
/// claims the view grows by exactly that character.
#[verifier::external_body]
pub(crate) fn push_char(s: &mut String, c: char)
    ensures
        final(s)@ == old(s)@.push(c),
{
    s.push(c);
}

/// Full Unicode lowercase mapping of a string, as `str::to_lowercase` computes it.
pub uninterp spec fn spec_lowercase(s: Seq<char>) -> Seq<char>;

/// Full Unicode uppercase mapping of a string, as `str::to_uppercase` computes it.
pub uninterp spec fn spec_uppercase(s: Seq<char>) -> Seq<char>;

/// Whether every character is ASCII.
pub open spec fn spec_is_ascii(s: Seq<char>) -> bool {
    forall|i: int| 0 <= i < s.len() ==> (s[i] as u32) < 128
}

/// ASCII lowercase of one character: `A`..`Z` become `a`..`z`, others stay.
pub open spec fn ascii_lower_char(c: char) -> char {
    if 'A' <= c && c <= 'Z' { ((c as u32) + 32) as char } else { c }
}

/// ASCII uppercase of one character: `a`..`z` become `A`..`Z`, others stay.
pub open spec fn ascii_upper_char(c: char) -> char {
    if 'a' <= c && c <= 'z' { ((c as u32) - 32) as char } else { c }
}

/// ASCII lowercase of a string, character by character.
pub open spec fn spec_ascii_lowercase(s: Seq<char>) -> Seq<char> {
    s.map_values(|c: char| ascii_lower_char(c))
}

/// ASCII uppercase of a string, character by character.
pub open spec fn spec_ascii_uppercase(s: Seq<char>) -> Seq<char> {
    s.map_values(|c: char| ascii_upper_char(c))
}

/// Calls `str::to_lowercase`; its result is named by `spec_lowercase`, a
/// function of the characters alone (Unicode case tables, no locale). On
/// ASCII text the Unicode mapping is the ASCII one, and that is stated.
#[verifier::external_body]
pub(crate) fn lowercase(s: &str) -> (r: String)
    ensures
        r@ == spec_lowercase(s@),
        spec_is_ascii(s@) ==> r@ == spec_ascii_lowercase(s@),
{
    s.to_lowercase()
}

/// Calls `str::to_uppercase`; its result is named by `spec_uppercase`, a
/// function of the characters alone (Unicode case tables, no locale). On
/// ASCII text the Unicode mapping is the ASCII one, and that is stated.
#[verifier::external_body]
pub(crate) fn uppercase(s: &str) -> (r: String)
    ensures
        r@ == spec_uppercase(s@),
        spec_is_ascii(s@) ==> r@ == spec_ascii_uppercase(s@),
{
    s.to_uppercase()
}

/// The characters of a string slice, in order.
pub fn chars_of(s: &str) -> (v: Vec<char>)
    ensures
        v@ == s@,
{
    let mut v: Vec<char> = Vec::new();
    for c in it: s.chars()
        invariant
            v@ == it.seq().take(it.index()),
            it.seq() == s@,
    {
        v.push(c);
    }
    v
}

/// Tests two character sequences for equality.
pub fn chars_equal(a: &[char], b: &[char]) -> (r: bool)
    ensures
        r == (a@ == b@),
{
    if a.len() != b.len() {
        return false;
    }
    let mut i: usize = 0;
    while i < a.len()
        invariant
            a@.len() == b@.len(),
            0 <= i <= a@.len(),
            forall|j: int| 0 <= j < i ==> a@[j] == b@[j],
        decreases a@.len() - i,
    {
        if a[i] != b[i] {
            return false;
        }
        i = i + 1;
    }
    assert(a@ =~= b@);
    true
}

/// Tests two strings for equality, character by character.
pub fn str_eq(a: &str, b: &str) -> (r: bool)
    ensures
        r == (a@ == b@),
{
    let av = chars_of(a);
    let bv = chars_of(b);
    chars_equal(av.as_slice(), bv.as_slice())
}

/// Index of the first occurrence of `c` in `s`, if any.
#[verifier::opaque]
pub open spec fn index_of_char(s: Seq<char>, c: char) -> Option<int> {
    if exists|i: int| 0 <= i < s.len() && s[i] == c {
        Some(choose|i: int| 0 <= i < s.len() && s[i] == c && forall|j: int| 0 <= j < i ==> s[j] != c)
    } else {
        None
    }
}

/// The first index holding `c` is unique.
pub proof fn lemma_index_of_char(s: Seq<char>, c: char, i: int)
    requires
        0 <= i < s.len(),
        s[i] == c,
        forall|j: int| 0 <= j < i ==> s[j] != c,
    ensures
        index_of_char(s, c) == Some(i),
{
    reveal(index_of_char);
    let k = choose|k: int| 0 <= k < s.len() && s[k] == c && forall|j: int| 0 <= j < k ==> s[j] != c;
    assert(0 <= k < s.len() && s[k] == c && forall|j: int| 0 <= j < k ==> s[j] != c);
    if k < i {
        assert(s[k] != c);
    } else if i < k {
        assert(s[i] != c);
    }
}

/// A character that does not occur has no first occurrence.
pub proof fn lemma_index_of_char_none(s: Seq<char>, c: char)
    requires
        forall|j: int| 0 <= j < s.len() ==> s[j] != c,
    ensures
        index_of_char(s, c) is None,
{
    reveal(index_of_char);
}

/// Finds the first occurrence of `c`.
pub fn find_char(s: &[char], c: char) -> (r: Option<usize>)
    ensures
        r matches Some(i) ==> i < s@.len() && s@[i as int] == c && index_of_char(s@, c) == Some(i as int),
        r is None ==> index_of_char(s@, c) is None,
{
    let mut i: usize = 0;
    while i < s.len()
        invariant
            0 <= i <= s@.len(),
            forall|j: int| 0 <= j < i ==> s@[j] != c,
        decreases s@.len() - i,
    {
        if s[i] == c {
            proof { lemma_index_of_char(s@, c, i as int); }
            return Some(i);
        }
        i = i + 1;
    }
    proof { lemma_index_of_char_none(s@, c); }
    None
}

/// A `String` holding exactly the given characters.
pub fn string_of(chars: &[char]) -> (r: String)
    ensures
        r@ == chars@,
{
    let mut r = String::new();
    let mut i: usize = 0;
    while i < chars.len()
        invariant
            0 <= i <= chars@.len(),
            r@ == chars@.take(i as int),
        decreases chars@.len() - i,
    {
        push_char(&mut r, chars[i]);
        assert(chars@.take(i as int).push(chars@[i as int]) =~= chars@.take(i + 1));
        i = i + 1;
    }
    assert(chars@.take(chars@.len() as int) =~= chars@);
    r
}

/// Appends a string slice to a `String`.
pub fn append_str(r: &mut String, s: &str)
    ensures
        final(r)@ == old(r)@ + s@,
{
    let v = chars_of(s);
    append_chars(r, &v);
}

/// Appends characters to a `String`.
pub fn append_chars(r: &mut String, v: &[char])
    ensures
        final(r)@ == old(r)@ + v@,
{
    let ghost start = r@;
    let mut i: usize = 0;
    while i < v.len()
        invariant
            0 <= i <= v@.len(),
            r@ == start + v@.take(i as int),
        decreases v@.len() - i,
    {
        push_char(r, v[i]);
        assert(start + v@.take(i as int) + seq![v@[i as int]] =~= start + v@.take(i + 1));
        i = i + 1;
    }
    assert(v@.take(v@.len() as int) =~= v@);
}

/// The concatenation of two string slices as a new `String`.
pub fn concat2(a: &str, b: &str) -> (r: String)
    ensures
        r@ == a@ + b@,
{
    let mut r = a.to_owned();
    append_str(&mut r, b);
    r
}

/// Unicode `White_Space`, the set `char::is_whitespace` tests.
pub open spec fn spec_is_whitespace(c: char) -> bool {
    let u = c as u32;
    (0x09 <= u <= 0x0D) || u == 0x20 || u == 0x85 || u == 0xA0 || u == 0x1680
        || (0x2000 <= u <= 0x200A) || u == 0x2028 || u == 0x2029 || u == 0x202F
        || u == 0x205F || u == 0x3000
}

/// Tests a character for Unicode `White_Space`.
pub fn is_whitespace_char(c: char) -> (r: bool)
    ensures
        r == spec_is_whitespace(c),
{
    let u = c as u32;
    (0x09 <= u && u <= 0x0D) || u == 0x20 || u == 0x85 || u == 0xA0 || u == 0x1680
        || (0x2000 <= u && u <= 0x200A) || u == 0x2028 || u == 0x2029 || u == 0x202F
        || u == 0x205F || u == 0x3000
}

/// Leading whitespace removed.
pub open spec fn spec_trim_start(s: Seq<char>) -> Seq<char>
    decreases s.len(),
{
    if s.len() > 0 && spec_is_whitespace(s[0]) {
        spec_trim_start(s.drop_first())
    } else {
        s
    }
}

/// Trailing whitespace removed.
pub open spec fn spec_trim_end(s: Seq<char>) -> Seq<char>
    decreases s.len(),
{
    if s.len() > 0 && spec_is_whitespace(s.last()) {
        spec_trim_end(s.drop_last())
    } else {
        s
    }
}

/// Whitespace removed at both ends, as `str::trim` does.
pub open spec fn spec_trim(s: Seq<char>) -> Seq<char> {
    spec_trim_end(spec_trim_start(s))
}

proof fn lemma_trim_start_skip(s: Seq<char>, i: int)
    requires
        0 <= i <= s.len(),
        forall|j: int| 0 <= j < i ==> spec_is_whitespace(#[trigger] s[j]),
    ensures
        spec_trim_start(s) == spec_trim_start(s.subrange(i, s.len() as int)),
    decreases i,
{
    if i > 0 {
        assert(s.drop_first().subrange(i - 1, s.drop_first().len() as int) =~= s.subrange(i, s.len() as int));
        assert forall|j: int| 0 <= j < i - 1 implies spec_is_whitespace(#[trigger] s.drop_first()[j]) by {
            assert(s.drop_first()[j] == s[j + 1]);
        }
        lemma_trim_start_skip(s.drop_first(), i - 1);
    } else {
        assert(s.subrange(0, s.len() as int) =~= s);
    }
}

proof fn lemma_trim_end_skip(s: Seq<char>, k: int)
    requires
        0 <= k <= s.len(),
        forall|j: int| k <= j < s.len() ==> spec_is_whitespace(#[trigger] s[j]),
    ensures
        spec_trim_end(s) == spec_trim_end(s.subrange(0, k)),
    decreases s.len() - k,
{
    if k < s.len() {
        assert(s.drop_last().subrange(0, k) =~= s.subrange(0, k));
        assert forall|j: int| k <= j < s.drop_last().len() implies spec_is_whitespace(#[trigger] s.drop_last()[j]) by {
            assert(s.drop_last()[j] == s[j]);
        }
        lemma_trim_end_skip(s.drop_last(), k);
    } else {
        assert(s.subrange(0, k) =~= s);
    }
}

/// The characters of `s` with surrounding whitespace removed.
pub fn trim_chars(s: &[char]) -> (r: Vec<char>)
    ensures
        r@ == spec_trim(s@),
{
    let n = s.len();
    let mut i: usize = 0;
    while i < n && is_whitespace_char(s[i])
        invariant
            n == s@.len(),
            0 <= i <= n,
            forall|j: int| 0 <= j < i ==> spec_is_whitespace(#[trigger] s@[j]),
        decreases n - i,
    {
        i = i + 1;
    }
    proof {
        lemma_trim_start_skip(s@, i as int);
        let rest = s@.subrange(i as int, n as int);
        if rest.len() > 0 {
            assert(rest[0] == s@[i as int]);
        }
        assert(spec_trim_start(rest) == rest);
    }
    let mut k: usize = n;
    while k > i && is_whitespace_char(s[k - 1])
        invariant
            n == s@.len(),
            i <= k <= n,
            forall|j: int| k <= j < n ==> spec_is_whitespace(#[trigger] s@[j]),
        decreases k,
    {
        k = k - 1;
    }
    let mut r: Vec<char> = Vec::new();
    let mut p: usize = i;
    while p < k
        invariant
            i <= p <= k <= n,
            n == s@.len(),
            r@ == s@.subrange(i as int, p as int),
        decreases k - p,
    {
        r.push(s[p]);
        assert(s@.subrange(i as int, p as int).push(s@[p as int]) =~= s@.subrange(i as int, p + 1));
        p = p + 1;
    }
    proof {
        let rest = s@.subrange(i as int, n as int);
        assert forall|j: int| (k - i) <= j < rest.len() implies spec_is_whitespace(#[trigger] rest[j]) by {
            assert(rest[j] == s@[j + i]);
        }
        lemma_trim_end_skip(rest, k - i);
        let kept = rest.subrange(0, k - i);
        assert(kept =~= s@.subrange(i as int, k as int));
        if kept.len() > 0 {
            assert(kept.last() == s@[k - 1]);
        }
        assert(spec_trim_end(kept) == kept);
    }
    r
}

/// A string slice with surrounding whitespace removed, as a new `String`.
pub fn trim(s: &str) -> (r: String)
    ensures
        r@ == spec_trim(s@),
{
    let v = chars_of(s);
    let t = trim_chars(v.as_slice());
    string_of(t.as_slice())
}

/// The length of the run of non-whitespace characters that starts `s`.
pub open spec fn spec_word_len(s: Seq<char>) -> nat
    decreases s.len(),
{
    if s.len() == 0 || spec_is_whitespace(s[0]) {
        0
    } else {
        1 + spec_word_len(s.drop_first())
    }
}

/// The first whitespace-separated word of `s`, as `split_whitespace().next()` gives it.
pub open spec fn spec_first_word(s: Seq<char>) -> Option<Seq<char>> {
    let t = spec_trim_start(s);
    if t.len() == 0 {
        None
    } else {
        Some(t.take(spec_word_len(t) as int))
    }
}

pub(crate) proof fn lemma_word_len(s: Seq<char>, k: int)
    requires
        0 <= k <= s.len(),
        forall|j: int| 0 <= j < k ==> !spec_is_whitespace(#[trigger] s[j]),
        k == s.len() || spec_is_whitespace(s[k]),
    ensures
        spec_word_len(s) == k,
    decreases k,
{
    if k > 0 {
        assert forall|j: int| 0 <= j < k - 1 implies !spec_is_whitespace(#[trigger] s.drop_first()[j]) by {
            assert(s.drop_first()[j] == s[j + 1]);
        }
        if k < s.len() {
            assert(s.drop_first()[k - 1] == s[k]);
        }
        lemma_word_len(s.drop_first(), k - 1);
    }
}

/// The first whitespace-separated word of a line, if it has one.
pub fn first_word(s: &[char]) -> (r: Option<Vec<char>>)
    ensures
        match r {
            Some(w) => spec_first_word(s@) == Some(w@),
            None => spec_first_word(s@) is None,
        },
{
    let n = s.len();
    let mut i: usize = 0;
    while i < n && is_whitespace_char(s[i])
        invariant
            n == s@.len(),
            0 <= i <= n,
            forall|j: int| 0 <= j < i ==> spec_is_whitespace(#[trigger] s@[j]),
        decreases n - i,
    {
        i = i + 1;
    }
    let ghost rest = s@.subrange(i as int, n as int);
    proof {
        lemma_trim_start_skip(s@, i as int);
        if rest.len() > 0 {
            assert(rest[0] == s@[i as int]);
        }
        assert(spec_trim_start(rest) == rest);
    }
    if i == n {
        return None;
    }
    let mut w: Vec<char> = Vec::new();
    let mut k: usize = i;
    while k < n && !is_whitespace_char(s[k])
        invariant
            n == s@.len(),
            i <= k <= n,
            rest == s@.subrange(i as int, n as int),
            w@ == s@.subrange(i as int, k as int),
            forall|j: int| i <= j < k ==> !spec_is_whitespace(#[trigger] s@[j]),
        decreases n - k,
    {
        w.push(s[k]);
        assert(s@.subrange(i as int, k as int).push(s@[k as int]) =~= s@.subrange(i as int, k + 1));
        k = k + 1;
    }
    proof {
        assert forall|j: int| 0 <= j < k - i implies !spec_is_whitespace(#[trigger] rest[j]) by {
            assert(rest[j] == s@[j + i]);
        }
        if k < n {
            assert(rest[k - i] == s@[k as int]);
        }
        lemma_word_len(rest, k - i);
        assert(rest.take(k - i) =~= w@);
    }
    Some(w)
}

/// `p` is a prefix of `s`.
pub open spec fn spec_starts_with(s: Seq<char>, p: Seq<char>) -> bool {
    p.len() <= s.len() && s.subrange(0, p.len() as int) == p
}

/// `p` is a suffix of `s`.
pub open spec fn spec_ends_with(s: Seq<char>, p: Seq<char>) -> bool {
    p.len() <= s.len() && s.subrange(s.len() - p.len(), s.len() as int) == p
}

/// `p` occurs in `s` at position `i`.
pub open spec fn occurs_at(s: Seq<char>, p: Seq<char>, i: int) -> bool {
    0 <= i && i + p.len() <= s.len() && s.subrange(i, i + p.len()) == p
}

/// `p` occurs somewhere in `s`.
pub open spec fn spec_contains(s: Seq<char>, p: Seq<char>) -> bool {
    exists|i: int| occurs_at(s, p, i)
}

/// Tests whether `p` occurs in `s` at position `i`.
pub fn matches_at(s: &[char], p: &[char], i: usize) -> (r: bool)
    ensures
        r == occurs_at(s@, p@, i as int),
{
    if i > s.len() || p.len() > s.len() - i {
        return false;
    }
    let mut j: usize = 0;
    while j < p.len()
        invariant
            i + p@.len() <= s@.len(),
            s@.len() <= usize::MAX,
            0 <= j <= p@.len(),
            forall|k: int| 0 <= k < j ==> s@[i + k] == p@[k],
        decreases p@.len() - j,
    {
        if s[i + j] != p[j] {
            assert(s@.subrange(i as int, i + p@.len())[j as int] != p@[j as int]);
            return false;
        }
        j = j + 1;
    }
    assert(s@.subrange(i as int, i + p@.len()) =~= p@);
    true
}

/// Tests whether `p` is a prefix of `s`.
pub fn starts_with_chars(s: &[char], p: &[char]) -> (r: bool)
    ensures
        r == spec_starts_with(s@, p@),
{
    matches_at(s, p, 0)
}

/// Tests whether `p` is a suffix of `s`.
pub fn ends_with_chars(s: &[char], p: &[char]) -> (r: bool)
    ensures
        r == spec_ends_with(s@, p@),
{
    if p.len() > s.len() {
        return false;
    }
    matches_at(s, p, s.len() - p.len())
}

/// Tests whether `p` occurs in `s`.
pub fn contains_chars(s: &[char], p: &[char]) -> (r: bool)
    ensures
        r == spec_contains(s@, p@),
{
    if p.len() > s.len() {
        proof {
            assert forall|i: int| !occurs_at(s@, p@, i) by {}
        }
        return false;
    }
    let last = s.len() - p.len();
    let mut i: usize = 0;
    while i <= last
        invariant
            last + p@.len() == s@.len(),
            0 <= i <= last + 1,
            forall|k: int| 0 <= k < i ==> !occurs_at(s@, p@, k),
        decreases last + 1 - i,
    {
        if matches_at(s, p, i) {
            return true;
        }
        if i == last {
            proof {
                assert forall|k: int| !occurs_at(s@, p@, k) by {
                    if k > last {
                        assert(k + p@.len() > s@.len());
                    }
                }
            }
            return false;
        }
        i = i + 1;
    }
    proof {
        assert forall|k: int| !occurs_at(s@, p@, k) by {
            if k >= i {
                assert(k + p@.len() > s@.len());
            }
        }
    }
    false
}

/// Tests whether the string slice `p` occurs in the characters `s`.
pub fn contains_str(s: &[char], p: &str) -> (r: bool)
    ensures
        r == spec_contains(s@, p@),
{
    let pv = chars_of(p);
    contains_chars(s, pv.as_slice())
}

/// `n` copies of `c`.
pub open spec fn repeat_char(c: char, n: nat) -> Seq<char> {
    Seq::new(n, |i: int| c)
}

/// Left-aligned in a field of `width` characters, as `format!("{:<width$}")`.
pub open spec fn spec_pad(s: Seq<char>, width: nat) -> Seq<char> {
    if s.len() >= width {
        s
    } else {
        s + repeat_char(' ', (width - s.len()) as nat)
    }
}

/// Right-aligned in a field of `width` characters, as `format!("{:>width$}")`.
pub open spec fn spec_pad_right(s: Seq<char>, width: nat) -> Seq<char> {
    if s.len() >= width {
        s
    } else {
        repeat_char(' ', (width - s.len()) as nat) + s
    }
}

fn push_spaces(r: &mut String, n: usize)
    ensures
        final(r)@ == old(r)@ + repeat_char(' ', n as nat),
{
    let ghost start = r@;
    let mut i: usize = 0;
    while i < n
        invariant
            0 <= i <= n,
            r@ == start + repeat_char(' ', i as nat),
        decreases n - i,
    {
        push_char(r, ' ');
        assert(start + repeat_char(' ', i as nat) + seq![' '] =~= start + repeat_char(' ', (i + 1) as nat));
        i = i + 1;
    }
}

/// Pads `s` with spaces on the right up to `width` characters.
pub fn pad(s: &str, width: usize) -> (r: String)
    ensures
        r@ == spec_pad(s@, width as nat),
{
    let v = chars_of(s);
    let mut r = string_of(v.as_slice());
    if v.len() < width {
        push_spaces(&mut r, width - v.len());
    }
    r
}

/// Pads `s` with spaces on the left up to `width` characters.
pub fn pad_right(s: &str, width: usize) -> (r: String)
    ensures
        r@ == spec_pad_right(s@, width as nat),
{
    let v = chars_of(s);
    let mut r = String::new();
    if v.len() < width {
        push_spaces(&mut r, width - v.len());
    }
    append_chars(&mut r, v.as_slice());
    proof {
        if v@.len() >= width {
            assert(Seq::<char>::empty() + s@ =~= s@);
        }
    }
    r
}

/// The decimal digit character for `d < 10`.
pub open spec fn digit_char(d: nat) -> char {
    if d == 0 { '0' } else if d == 1 { '1' } else if d == 2 { '2' } else if d == 3 { '3' }
    else if d == 4 { '4' } else if d == 5 { '5' } else if d == 6 { '6' } else if d == 7 { '7' }
    else if d == 8 { '8' } else { '9' }
}

/// The decimal representation of `n` without leading zeros, as `Display` writes it.
pub open spec fn spec_decimal(n: nat) -> Seq<char>
    decreases n,
{
    if n < 10 {
        seq![digit_char(n)]
    } else {
        spec_decimal(n / 10).push(digit_char(n % 10))
    }
}

fn digit(d: u64) -> (c: char)
    requires
        d < 10,
    ensures
        c == digit_char(d as nat),
{
    if d == 0 { '0' } else if d == 1 { '1' } else if d == 2 { '2' } else if d == 3 { '3' }
    else if d == 4 { '4' } else if d == 5 { '5' } else if d == 6 { '6' } else if d == 7 { '7' }
    else if d == 8 { '8' } else { '9' }
}

/// Appends the decimal representation of `n`.
pub fn append_decimal(r: &mut String, n: u64)
    ensures
        final(r)@ == old(r)@ + spec_decimal(n as nat),
    decreases n,
{
    if n < 10 {
        push_char(r, digit(n));
    } else {
        append_decimal(r, n / 10);
        push_char(r, digit(n % 10));
        proof {
            assert(old(r)@ + spec_decimal((n / 10) as nat) + seq![digit_char((n % 10) as nat)]
                =~= old(r)@ + spec_decimal(n as nat));
        }
    }
}

/// The decimal representation of `n`.
pub fn decimal(n: u64) -> (r: String)
    ensures
        r@ == spec_decimal(n as nat),
{
    let mut r = String::new();
    append_decimal(&mut r, n);
    assert(Seq::<char>::empty() + spec_decimal(n as nat) =~= spec_decimal(n as nat));
    r
}

/// `rel` joined onto `base` as `Path::join` does with Unix paths: an
/// absolute `rel` (one starting with `/`) replaces `base`; otherwise `rel` is
/// appended with one `/` between them.
pub open spec fn spec_join_path(base: Seq<char>, rel: Seq<char>) -> Seq<char> {
    if rel.len() > 0 && rel[0] == '/' {
        rel
    } else if base.len() == 0 {
        rel
    } else if base.last() == '/' {
        base + rel
    } else {
        base.push('/') + rel
    }
}

/// Joins a path component onto a directory path.
pub fn join_path(base: &str, rel: &str) -> (r: String)
    ensures
        r@ == spec_join_path(base@, rel@),
{
    let rc = chars_of(rel);
    if rc.len() > 0 && rc[0] == '/' {
        return string_of(rc.as_slice());
    }
    let b = chars_of(base);
    let mut r = string_of(b.as_slice());
    if b.len() > 0 && b[b.len() - 1] != '/' {
        push_char(&mut r, '/');
    }
    append_str(&mut r, rel);
    proof {
        if b@.len() == 0 {
            assert(Seq::<char>::empty() + rel@ =~= rel@);
        }
    }
    r
}

/// A line without its line ending: a carriage return before the newline is dropped.
pub open spec fn strip_cr(line: Seq<char>) -> Seq<char> {
    if line.len() > 0 && line.last() == '\r' { line.drop_last() } else { line }
}

/// The lines of a text as `str::lines` gives them: split at each newline,
/// a carriage return before a newline dropped, no line after a final newline.
pub open spec fn spec_lines(s: Seq<char>) -> Seq<Seq<char>>
    decreases s.len(),
{
    match index_of_char(s, '\n') {
        Some(i) => if 0 <= i < s.len() {
            seq![strip_cr(s.take(i))] + spec_lines(s.skip(i + 1))
        } else {
            Seq::empty()
        },
        None => if s.len() == 0 { Seq::empty() } else { seq![s] },
    }
}

/// The characters of each string.
pub open spec fn string_views(v: Seq<String>) -> Seq<Seq<char>> {
    v.map_values(|s: String| s@)
}

/// Splitting at a newline that ends a newline-free prefix.
proof fn lemma_lines_at_newline(cur: Seq<char>, rest: Seq<char>)
    requires
        !cur.contains('\n'),
        rest.len() > 0,
        rest[0] == '\n',
    ensures
        spec_lines(cur + rest) == seq![strip_cr(cur)] + spec_lines(rest.skip(1)),
{
    let w = cur + rest;
    assert(w[cur.len() as int] == '\n');
    assert forall|j: int| 0 <= j < cur.len() implies w[j] != '\n' by {
        assert(w[j] == cur[j]);
        if cur[j] == '\n' {
            assert(cur.contains('\n'));
        }
    }
    lemma_index_of_char(w, '\n', cur.len() as int);
    assert(w.take(cur.len() as int) =~= cur);
    assert(w.skip(cur.len() as int + 1) =~= rest.skip(1));
}

/// A newline-free text is one line, or none when empty.
proof fn lemma_lines_no_newline(cur: Seq<char>)
    requires
        !cur.contains('\n'),
    ensures
        spec_lines(cur) == if cur.len() == 0 { Seq::<Seq<char>>::empty() } else { seq![cur] },
{
    assert forall|j: int| 0 <= j < cur.len() implies cur[j] != '\n' by {
        if cur[j] == '\n' {
            assert(cur.contains('\n'));
        }
    }
    lemma_index_of_char_none(cur, '\n');
}

proof fn lemma_push_keeps_newline_free(cur: Seq<char>, c: char)
    requires
        !cur.contains('\n'),
        c != '\n',
    ensures
        !cur.push(c).contains('\n'),
{
    if cur.push(c).contains('\n') {
        let j = choose|j: int| 0 <= j < cur.push(c).len() && cur.push(c)[j] == '\n';
        assert(cur[j] == '\n');
        assert(cur.contains('\n'));
    }
}

/// The lines of a text, in order.
#[verifier::rlimit(30)]
pub fn lines_of(s: &str) -> (r: Vec<String>)
    ensures
        string_views(r@) == spec_lines(s@),
{
    let cs = chars_of(s);
    let mut out: Vec<String> = Vec::new();
    let mut cur: Vec<char> = Vec::new();
    proof {
        assert(cur@ + cs@.skip(0) =~= s@);
        assert(string_views(out@) =~= Seq::<Seq<char>>::empty());
        assert(string_views(out@) + spec_lines(cur@ + cs@.skip(0)) =~= spec_lines(s@));
    }
    let mut i: usize = 0;
    while i < cs.len()
        invariant
            cs@ == s@,
            0 <= i <= cs@.len(),
            !cur@.contains('\n'),
            string_views(out@) + spec_lines(cur@ + cs@.skip(i as int)) == spec_lines(s@),
        decreases cs@.len() - i,
    {
        let c = cs[i];
        let ghost rest = cs@.skip(i as int);
        let ghost old_cur = cur@;
        let ghost old_out = string_views(out@);
        if c == '\n' {
            proof {
                lemma_lines_at_newline(old_cur, rest);
                assert(rest.skip(1) =~= cs@.skip(i + 1));
            }
            let mut line = cur.clone();
            if line.len() > 0 && line[line.len() - 1] == '\r' {
                line.pop();
            }
            let l = string_of(line.as_slice());
            out.push(l);
            cur = Vec::new();
            proof {
                assert(string_views(out@) =~= old_out.push(strip_cr(old_cur)));
                assert(cur@ + cs@.skip(i + 1) =~= cs@.skip(i + 1));
                assert(string_views(out@) + spec_lines(cur@ + cs@.skip(i + 1))
                    =~= old_out + (seq![strip_cr(old_cur)] + spec_lines(cs@.skip(i + 1))));
            }
        } else {
            cur.push(c);
            proof {
                lemma_push_keeps_newline_free(old_cur, c);
                assert(cur@ + cs@.skip(i + 1) =~= old_cur + rest);
            }
        }
        i = i + 1;
    }
    proof {
        assert(cur@ + cs@.skip(cs@.len() as int) =~= cur@);
        lemma_lines_no_newline(cur@);
    }
    let ghost before = string_views(out@);
    if cur.len() > 0 {
        out.push(string_of(cur.as_slice()));
        proof {
            assert(string_views(out@) =~= before.push(cur@));
        }
    }
    proof {
        assert(string_views(out@) =~= spec_lines(s@));
    }
    out
}

/// The pieces of a text between occurrences of `c`, as `str::split` gives
/// them: always one more piece than there are separators.
pub open spec fn spec_split(s: Seq<char>, c: char) -> Seq<Seq<char>>
    decreases s.len(),
{
    match index_of_char(s, c) {
        Some(i) => if 0 <= i < s.len() {
            seq![s.take(i)] + spec_split(s.skip(i + 1), c)
        } else {
            seq![s]
        },
        None => seq![s],
    }
}

proof fn lemma_split_at_sep(cur: Seq<char>, rest: Seq<char>, c: char)
    requires
        !cur.contains(c),
        rest.len() > 0,
        rest[0] == c,
    ensures
        spec_split(cur + rest, c) == seq![cur] + spec_split(rest.skip(1), c),
{
    let w = cur + rest;
    assert(w[cur.len() as int] == c);
    assert forall|j: int| 0 <= j < cur.len() implies w[j] != c by {
        assert(w[j] == cur[j]);
        if cur[j] == c {
            assert(cur.contains(c));
        }
    }
    lemma_index_of_char(w, c, cur.len() as int);
    assert(w.take(cur.len() as int) =~= cur);
    assert(w.skip(cur.len() as int + 1) =~= rest.skip(1));
}

proof fn lemma_split_no_sep(cur: Seq<char>, c: char)
    requires
        !cur.contains(c),
    ensures
        spec_split(cur, c) == seq![cur],
{
    assert forall|j: int| 0 <= j < cur.len() implies cur[j] != c by {
        if cur[j] == c {
            assert(cur.contains(c));
        }
    }
    lemma_index_of_char_none(cur, c);
}

/// Splits a text at every occurrence of `c`.
#[verifier::rlimit(30)]
pub fn split_char(s: &str, c: char) -> (r: Vec<String>)
    ensures
        string_views(r@) == spec_split(s@, c),
{
    let cs = chars_of(s);
    let mut out: Vec<String> = Vec::new();
    let mut cur: Vec<char> = Vec::new();
    proof {
        assert(cur@ + cs@.skip(0) =~= s@);
        assert(string_views(out@) =~= Seq::<Seq<char>>::empty());
        assert(string_views(out@) + spec_split(cur@ + cs@.skip(0), c) =~= spec_split(s@, c));
    }
    let mut i: usize = 0;
    while i < cs.len()
        invariant
            cs@ == s@,
            0 <= i <= cs@.len(),
            !cur@.contains(c),
            string_views(out@) + spec_split(cur@ + cs@.skip(i as int), c) == spec_split(s@, c),
        decreases cs@.len() - i,
    {
        let x = cs[i];
        let ghost rest = cs@.skip(i as int);
        let ghost old_cur = cur@;
        let ghost old_out = string_views(out@);
        if x == c {
            proof {
                lemma_split_at_sep(old_cur, rest, c);
                assert(rest.skip(1) =~= cs@.skip(i + 1));
            }
            out.push(string_of(cur.as_slice()));
            cur = Vec::new();
            proof {
                assert(string_views(out@) =~= old_out.push(old_cur));
                assert(cur@ + cs@.skip(i + 1) =~= cs@.skip(i + 1));
                assert(string_views(out@) + spec_split(cur@ + cs@.skip(i + 1), c)
                    =~= old_out + (seq![old_cur] + spec_split(cs@.skip(i + 1), c)));
            }
        } else {
            cur.push(x);
            proof {
                if cur@.contains(c) {
                    let j = choose|j: int| 0 <= j < cur@.len() && cur@[j] == c;
                    assert(old_cur[j] == c);
                    assert(old_cur.contains(c));
                }
                assert(cur@ + cs@.skip(i + 1) =~= old_cur + rest);
            }
        }
        i = i + 1;
    }
    proof {
        assert(cur@ + cs@.skip(cs@.len() as int) =~= cur@);
        lemma_split_no_sep(cur@, c);
    }
    let ghost before = string_views(out@);
    out.push(string_of(cur.as_slice()));
    proof {
        assert(string_views(out@) =~= before.push(cur@));
        assert(string_views(out@) =~= spec_split(s@, c));
    }
    out
}

} // verus!
