//! Decisions and text of the command-line client: model sources, uptime,
//! truncation, network verification verdicts, and firewall summaries.

use vstd::prelude::*;
use crate::models::{ModelType, ModelId, spec_split_model_id};
use crate::quant::QuantFormat;
use crate::digest::{HexError, hex_decode, spec_hex_decode};
use vstd::utf8::encode_utf8;
use vstd::string::StringSliceAdditionalSpecFns;
use crate::suggest::{did_you_mean, option_views, spec_suggestion, opt_str_view, suggestion_distance, is_first_exact, is_first_nearest};
use crate::text::{chars_of, string_of, append_str, append_decimal, spec_decimal, lowercase, spec_lowercase, str_eq,
    starts_with_chars, spec_starts_with, find_char, index_of_char, push_char, lines_of, spec_lines, string_views,
    contains_str, spec_contains, split_char, spec_split, trim, spec_trim, ends_with_chars, spec_ends_with};

verus! {

/// An uptime as text: days, hours and minutes when at least a day; hours and
/// minutes when at least an hour; else minutes and seconds.
pub open spec fn spec_format_uptime(secs: nat) -> Seq<char> {
    let d = secs / 86400;
    let h = (secs % 86400) / 3600;
    let m = (secs % 3600) / 60;
    if d > 0 {
        spec_decimal(d) + "d "@ + spec_decimal(h) + "h "@ + spec_decimal(m) + "m"@
    } else if h > 0 {
        spec_decimal(h) + "h "@ + spec_decimal(m) + "m"@
    } else {
        spec_decimal(m) + "m "@ + spec_decimal(secs % 60) + "s"@
    }
}

/// Formats the daemon's uptime.
pub fn format_uptime(secs: u64) -> (r: String)
    ensures
        r@ == spec_format_uptime(secs as nat),
{
    let d = secs / 86400;
    let h = (secs % 86400) / 3600;
    let m = (secs % 3600) / 60;
    let mut r = String::new();
    if d > 0 {
        append_decimal(&mut r, d);
        append_str(&mut r, "d ");
        append_decimal(&mut r, h);
        append_str(&mut r, "h ");
        append_decimal(&mut r, m);
        append_str(&mut r, "m");
    } else if h > 0 {
        append_decimal(&mut r, h);
        append_str(&mut r, "h ");
        append_decimal(&mut r, m);
        append_str(&mut r, "m");
    } else {
        append_decimal(&mut r, m);
        append_str(&mut r, "m ");
        append_decimal(&mut r, secs % 60);
        append_str(&mut r, "s");
    }
    r
}

/// A text cut to `max` characters, with an ellipsis when something was cut,
/// and with every newline turned into a space.
pub open spec fn spec_truncate(s: Seq<char>, max: nat) -> Seq<char> {
    let cut = if s.len() > max { s.take(max as int).push('\u{2026}') } else { s };
    cut.map_values(|c: char| if c == '\n' { ' ' } else { c })
}

/// Shortens a text for a one-line table cell.
pub fn truncate(s: &str, max_chars: usize) -> (r: String)
    ensures
        r@ == spec_truncate(s@, max_chars as nat),
{
    let cs = chars_of(s);
    let n = if cs.len() > max_chars { max_chars } else { cs.len() };
    let mut r = String::new();
    let mut i: usize = 0;
    let ghost cut = if s@.len() > max_chars { s@.take(max_chars as int).push('\u{2026}') } else { s@ };
    while i < n
        invariant
            cs@ == s@,
            n <= cs@.len(),
            n == if cs@.len() > max_chars { max_chars as int } else { cs@.len() as int },
            cut == if s@.len() > max_chars { s@.take(max_chars as int).push('\u{2026}') } else { s@ },
            0 <= i <= n,
            r@ == cut.take(i as int).map_values(|c: char| if c == '\n' { ' ' } else { c }),
        decreases n - i,
    {
        let c = cs[i];
        push_char(&mut r, if c == '\n' { ' ' } else { c });
        proof {
            assert(cut[i as int] == c);
            assert(cut.take(i + 1).map_values(|c: char| if c == '\n' { ' ' } else { c })
                =~= cut.take(i as int).map_values(|c: char| if c == '\n' { ' ' } else { c }).push(if c == '\n' { ' ' } else { c }));
        }
        i = i + 1;
    }
    if cs.len() > max_chars {
        push_char(&mut r, '\u{2026}');
        proof {
            assert(cut.take(n + 1) =~= cut);
            assert(cut.take(n + 1).map_values(|c: char| if c == '\n' { ' ' } else { c })
                =~= cut.take(n as int).map_values(|c: char| if c == '\n' { ' ' } else { c }).push('\u{2026}'));
        }
    } else {
        proof {
            assert(cut.take(n as int) =~= cut);
        }
    }
    r
}

/// Where a model is downloaded from: a full `http://` or `https://` URL as
/// given, or an `owner/repo/file` path on Hugging Face (the file part keeps
/// any further slashes). Anything else is refused.
pub open spec fn spec_pull_url(source: Seq<char>) -> Result<Seq<char>, Seq<char>> {
    if spec_starts_with(source, "https://"@) || spec_starts_with(source, "http://"@) {
        Ok(source)
    } else {
        match index_of_char(source, '/') {
            Some(i) => match index_of_char(source.skip(i + 1), '/') {
                Some(j) => Ok("https://huggingface.co/"@ + source.take(i) + "/"@ + source.skip(i + 1).take(j)
                    + "/resolve/main/"@ + source.skip(i + 1).skip(j + 1)),
                None => Err(invalid_source_message(source)),
            },
            None => Err(invalid_source_message(source)),
        }
    }
}

/// The refusal of a model source.
pub open spec fn invalid_source_message(source: Seq<char>) -> Seq<char> {
    "invalid source '"@ + source + "': expected owner/repo/filename.gguf or a full URL"@
}

fn invalid_source(source: &str) -> (r: String)
    ensures
        r@ == invalid_source_message(source@),
{
    let mut e = String::new();
    append_str(&mut e, "invalid source '");
    append_str(&mut e, source);
    append_str(&mut e, "': expected owner/repo/filename.gguf or a full URL");
    e
}

/// The owner, repository and file of an `owner/repo/file` source.
pub open spec fn spec_hf_parts(source: Seq<char>) -> Option<(Seq<char>, Seq<char>, Seq<char>)> {
    match index_of_char(source, '/') {
        Some(i) => match index_of_char(source.skip(i + 1), '/') {
            Some(j) => Some((source.take(i), source.skip(i + 1).take(j), source.skip(i + 1).skip(j + 1))),
            None => None,
        },
        None => None,
    }
}

#[verifier::rlimit(50)]
fn hf_parts(source: &str) -> (r: Option<(String, String, String)>)
    ensures
        match r {
            Some((o, p, f)) => spec_hf_parts(source@) == Some((o@, p@, f@)),
            None => spec_hf_parts(source@) is None,
        },
{
    let cs = chars_of(source);
    let i = match find_char(cs.as_slice(), '/') {
        Some(i) => i,
        None => return None,
    };
    assert(i < cs.len());
    let after = &cs.as_slice()[i + 1..cs.len()];
    proof { assert(after@ =~= source@.skip(i + 1)); }
    let j = match find_char(after, '/') {
        Some(j) => j,
        None => return None,
    };
    assert(j < after.len());
    let owner = string_of(&cs.as_slice()[0..i]);
    let repo = string_of(&after[0..j]);
    let file = string_of(&after[j + 1..after.len()]);
    proof {
        assert(owner@ =~= source@.take(i as int));
        assert(repo@ =~= source@.skip(i + 1).take(j as int));
        assert(file@ =~= source@.skip(i + 1).skip(j + 1));
    }
    Some((owner, repo, file))
}

/// Builds the download URL of a model source.
pub fn pull_url(source: &str) -> (r: Result<String, String>)
    ensures
        match r {
            Ok(u) => spec_pull_url(source@) == Ok::<Seq<char>, Seq<char>>(u@),
            Err(e) => spec_pull_url(source@) == Err::<Seq<char>, Seq<char>>(e@),
        },
{
    let cs = chars_of(source);
    let https = chars_of("https://");
    let http = chars_of("http://");
    if starts_with_chars(cs.as_slice(), https.as_slice()) || starts_with_chars(cs.as_slice(), http.as_slice()) {
        return Ok(source.to_owned());
    }
    match hf_parts(source) {
        None => Err(invalid_source(source)),
        Some((owner, repo, file)) => {
            let mut u = String::new();
            append_str(&mut u, "https://huggingface.co/");
            append_str(&mut u, owner.as_str());
            append_str(&mut u, "/");
            append_str(&mut u, repo.as_str());
            append_str(&mut u, "/resolve/main/");
            append_str(&mut u, file.as_str());
            Ok(u)
        },
    }
}

/// The model type named by already lower-cased text, if it names one.
pub open spec fn spec_model_type_from_lower(s: Seq<char>) -> Option<ModelType> {
    if s == "embedding"@ || s == "embed"@ {
        Some(ModelType::Embedding)
    } else if s == "llm"@ || s == "chat"@ || s.len() == 0 {
        Some(ModelType::Llm)
    } else {
        None
    }
}

/// The model type asked for with `--type`; an unknown name falls back to
/// `Llm`, with a warning naming it and, when one is close, the intended type.
#[derive(Debug, Clone)]
pub struct ModelTypeChoice {
    pub model_type: ModelType,
    /// The unknown name given, lower-cased, when the fallback was taken.
    pub unknown: Option<String>,
    /// The type the unknown name was probably meant to be.
    pub suggestion: Option<&'static str>,
}

/// The names `--type` suggests from, in order.
pub open spec fn model_type_views() -> Seq<Seq<char>> {
    seq!["llm"@, "embedding"@]
}

/// Reads `--type` from already lower-cased text.
pub fn parse_model_type_lower(s: &str) -> (r: ModelTypeChoice)
    ensures
        match spec_model_type_from_lower(s@) {
            Some(t) => r.model_type == t && r.unknown is None && r.suggestion is None,
            None => r.model_type == ModelType::Llm && (r.unknown matches Some(u) && u@ == s@)
                && opt_str_view(r.suggestion) == spec_suggestion(s@, model_type_views()),
        },
{
    if str_eq(s, "embedding") || str_eq(s, "embed") {
        ModelTypeChoice { model_type: ModelType::Embedding, unknown: None, suggestion: None }
    } else if str_eq(s, "llm") || str_eq(s, "chat") || s.unicode_len() == 0 {
        ModelTypeChoice { model_type: ModelType::Llm, unknown: None, suggestion: None }
    } else {
        let options: Vec<&'static str> = vec!["llm", "embedding"];
        assert(option_views(options@) =~= model_type_views());
        let suggestion = did_you_mean(s, options.as_slice());
        ModelTypeChoice { model_type: ModelType::Llm, unknown: Some(s.to_owned()), suggestion }
    }
}

/// Reads `--type`, ignoring case.
pub fn parse_model_type(s: &str) -> (r: ModelTypeChoice)
    ensures
        match spec_model_type_from_lower(spec_lowercase(s@)) {
            Some(t) => r.model_type == t && r.unknown is None && r.suggestion is None,
            None => r.model_type == ModelType::Llm && (r.unknown matches Some(u) && u@ == spec_lowercase(s@))
                && opt_str_view(r.suggestion) == spec_suggestion(spec_lowercase(s@), model_type_views()),
        },
{
    let l = lowercase(s);
    parse_model_type_lower(l.as_str())
}

/// Severity of a code-scan finding.
#[derive(Debug, Clone, Copy, PartialEq, Eq, Structural)]
pub enum Severity {
    High,
    Medium,
    Low,
}

/// The minimum severity named by already lower-cased text; anything
/// unrecognised means `Low`.
pub fn parse_sev_lower(s: &str) -> (r: Severity)
    ensures
        r == if s@ == "high"@ { Severity::High } else if s@ == "medium"@ || s@ == "med"@ { Severity::Medium } else { Severity::Low },
{
    if str_eq(s, "high") {
        Severity::High
    } else if str_eq(s, "medium") || str_eq(s, "med") {
        Severity::Medium
    } else {
        Severity::Low
    }
}

/// The minimum severity named by text, ignoring case.
pub fn parse_sev(s: &str) -> (r: Severity)
    ensures
        r == if spec_lowercase(s@) == "high"@ { Severity::High } else if spec_lowercase(s@) == "medium"@
            || spec_lowercase(s@) == "med"@ { Severity::Medium } else { Severity::Low },
{
    let l = lowercase(s);
    parse_sev_lower(l.as_str())
}

/// The rank of a severity: 3 for high down to 1 for low.
pub fn sev_rank(s: Severity) -> (r: u8)
    ensures
        r == match s { Severity::High => 3u8, Severity::Medium => 2u8, Severity::Low => 1u8 },
{
    match s {
        Severity::High => 3,
        Severity::Medium => 2,
        Severity::Low => 1,
    }
}

/// A text without its trailing slashes.
pub open spec fn trim_trailing_slashes(s: Seq<char>) -> Seq<char>
    decreases s.len(),
{
    if s.len() > 0 && s.last() == '/' { trim_trailing_slashes(s.drop_last()) } else { s }
}

/// The URL of an endpoint of the daemon at `host`.
pub fn endpoint_url(host: &str, path: &str) -> (r: String)
    ensures
        r@ == trim_trailing_slashes(host@) + path@,
{
    let cs = chars_of(host);
    let mut n = cs.len();
    proof { assert(cs@.take(n as int) =~= host@); }
    while n > 0 && cs[n - 1] == '/'
        invariant
            cs@ == host@,
            n <= cs@.len(),
            trim_trailing_slashes(cs@.take(n as int)) == trim_trailing_slashes(host@),
        decreases n,
    {
        proof {
            assert(cs@.take(n as int).drop_last() =~= cs@.take(n - 1));
        }
        n = n - 1;
    }
    let mut r = string_of(&cs.as_slice()[0..n]);
    proof {
        assert(cs@.subrange(0, n as int) =~= cs@.take(n as int));
        assert(trim_trailing_slashes(cs@.take(n as int)) == cs@.take(n as int));
        if n == cs.len() {
            assert(cs@.take(n as int) =~= host@);
        }
    }
    append_str(&mut r, path);
    r
}

/// The conclusion of a network verification.
#[derive(Debug, Clone, Copy, PartialEq, Eq, Structural)]
pub enum NetworkVerdict {
    /// No probe got out and the daemon reports its air-gap on.
    Verified,
    /// Some probe got out.
    NotEnforced,
    /// No probe got out, but the daemon does not report its air-gap on.
    FlagOff,
}

/// Concludes a network verification from the daemon's air-gap flag (`None`
/// when the daemon could not be asked) and whether any probe got out.
pub fn network_verdict(daemon_air_gap: Option<bool>, any_reachable: bool) -> (r: NetworkVerdict)
    ensures
        r == if !any_reachable && daemon_air_gap == Some(true) {
            NetworkVerdict::Verified
        } else if any_reachable {
            NetworkVerdict::NotEnforced
        } else {
            NetworkVerdict::FlagOff
        },
{
    let air_gap_on = match daemon_air_gap {
        Some(b) => b,
        None => false,
    };
    if !any_reachable && air_gap_on {
        NetworkVerdict::Verified
    } else if any_reachable {
        NetworkVerdict::NotEnforced
    } else {
        NetworkVerdict::FlagOff
    }
}

/// The outbound targets a network verification tries, with their labels.
pub fn network_probes() -> (r: Vec<(&'static str, u16, &'static str)>)
    ensures
        r@.len() == 3,
        r@[0].0@ == "1.1.1.1"@ && r@[0].1 == 443 && r@[0].2@ == "Cloudflare (1.1.1.1:443)"@,
        r@[1].0@ == "8.8.8.8"@ && r@[1].1 == 53 && r@[1].2@ == "Google DNS (8.8.8.8:53)"@,
        r@[2].0@ == "93.184.216.34"@ && r@[2].1 == 80 && r@[2].2@ == "example.com (93.184.216.34:80)"@,
{
    vec![
        ("1.1.1.1", 443, "Cloudflare (1.1.1.1:443)"),
        ("8.8.8.8", 53, "Google DNS (8.8.8.8:53)"),
        ("93.184.216.34", 80, "example.com (93.184.216.34:80)"),
    ]
}

/// Whether some line sets a DROP policy on OUTPUT or FORWARD.
pub open spec fn has_drop_policy(lines: Seq<Seq<char>>) -> bool {
    exists|i: int| 0 <= i < lines.len() && (spec_contains(#[trigger] lines[i], "-P OUTPUT DROP"@)
        || spec_contains(lines[i], "-P FORWARD DROP"@))
}

/// Whether a firewall line concerns this product.
pub open spec fn related_line(l: Seq<char>) -> bool {
    spec_contains(l, "maranode"@) || spec_contains(l, "11984"@)
}

/// How many of the lines concern this product.
pub open spec fn related_count(lines: Seq<Seq<char>>) -> nat
    decreases lines.len(),
{
    if lines.len() == 0 {
        0
    } else {
        related_count(lines.drop_last()) + if related_line(lines.last()) { 1nat } else { 0nat }
    }
}

/// The one-line summary of `iptables-save` output.
pub open spec fn spec_iptables_summary(text: Seq<char>) -> Seq<char> {
    let lines = spec_lines(text);
    if has_drop_policy(lines) {
        "OUTPUT policy is DROP, "@ + spec_decimal(related_count(lines)) + " maranode-related rule(s) present"@
    } else {
        "OUTPUT policy is ACCEPT (not air-gapped), "@ + spec_decimal(related_count(lines)) + " maranode-related rule(s)"@
    }
}

/// Summarises `iptables-save` output: whether egress is dropped by policy and
/// how many rules concern this product.
pub fn iptables_summary(iptables_save_output: &str) -> (r: String)
    ensures
        r@ == spec_iptables_summary(iptables_save_output@),
{
    let lines = lines_of(iptables_save_output);
    let ghost ls = string_views(lines@);
    let mut has_drop = false;
    let mut count: u64 = 0;
    let mut i: usize = 0;
    while i < lines.len()
        invariant
            ls == string_views(lines@),
            0 <= i <= lines@.len(),
            has_drop == exists|k: int| 0 <= k < i && (spec_contains(#[trigger] ls[k], "-P OUTPUT DROP"@)
                || spec_contains(ls[k], "-P FORWARD DROP"@)),
            count == related_count(ls.take(i as int)),
            count <= i,
        decreases lines@.len() - i,
    {
        let cs = chars_of(lines[i].as_str());
        proof { assert(ls[i as int] == lines@[i as int]@); }
        if contains_str(cs.as_slice(), "-P OUTPUT DROP") || contains_str(cs.as_slice(), "-P FORWARD DROP") {
            has_drop = true;
        }
        proof { assert(ls.take(i + 1).drop_last() =~= ls.take(i as int)); }
        if contains_str(cs.as_slice(), "maranode") || contains_str(cs.as_slice(), "11984") {
            count = count + 1;
        }
        i = i + 1;
    }
    proof { assert(ls.take(lines@.len() as int) =~= ls); }
    let mut r = String::new();
    if has_drop {
        append_str(&mut r, "OUTPUT policy is DROP, ");
        append_decimal(&mut r, count);
        append_str(&mut r, " maranode-related rule(s) present");
    } else {
        append_str(&mut r, "OUTPUT policy is ACCEPT (not air-gapped), ");
        append_decimal(&mut r, count);
        append_str(&mut r, " maranode-related rule(s)");
    }
    r
}

/// The trimmed, non-empty pieces of a comma-separated list, in order.
pub open spec fn list_items(pieces: Seq<Seq<char>>) -> Seq<Seq<char>>
    decreases pieces.len(),
{
    if pieces.len() == 0 {
        Seq::empty()
    } else {
        let rest = list_items(pieces.drop_last());
        let t = spec_trim(pieces.last());
        if t.len() > 0 { rest.push(t) } else { rest }
    }
}

/// The webhook URLs of `--webhooks`: the trimmed, non-empty items of a
/// comma-separated list; none when the option is absent.
pub fn webhook_list(arg: Option<&str>) -> (r: Vec<String>)
    ensures
        string_views(r@) == list_items(spec_split(match arg { Some(a) => a@, None => ""@ }, ',')),
{
    let text = match arg {
        Some(a) => a,
        None => "",
    };
    let pieces = split_char(text, ',');
    let ghost ps = string_views(pieces@);
    let mut out: Vec<String> = Vec::new();
    let mut i: usize = 0;
    while i < pieces.len()
        invariant
            ps == string_views(pieces@),
            0 <= i <= pieces@.len(),
            string_views(out@) == list_items(ps.take(i as int)),
        decreases pieces@.len() - i,
    {
        let t = trim(pieces[i].as_str());
        proof {
            assert(ps.take(i + 1).drop_last() =~= ps.take(i as int));
            assert(ps.take(i + 1).last() == pieces@[i as int]@);
        }
        if t.unicode_len() > 0 {
            let ghost before = string_views(out@);
            out.push(t);
            proof { assert(string_views(out@) =~= before.push(spec_trim(pieces@[i as int]@))); }
        }
        i = i + 1;
    }
    proof { assert(ps.take(pieces@.len() as int) =~= ps); }
    out
}

/// The trimmed pieces of a comma-separated list, empty ones kept.
pub fn trimmed_items(arg: &str) -> (r: Vec<String>)
    ensures
        string_views(r@) == spec_split(arg@, ',').map_values(|p: Seq<char>| spec_trim(p)),
{
    let pieces = split_char(arg, ',');
    let ghost ps = string_views(pieces@);
    let mut out: Vec<String> = Vec::new();
    let mut i: usize = 0;
    while i < pieces.len()
        invariant
            ps == string_views(pieces@),
            0 <= i <= pieces@.len(),
            string_views(out@) == ps.take(i as int).map_values(|p: Seq<char>| spec_trim(p)),
        decreases pieces@.len() - i,
    {
        let t = trim(pieces[i].as_str());
        let ghost before = string_views(out@);
        out.push(t);
        proof {
            assert(string_views(out@) =~= before.push(spec_trim(ps[i as int])));
            assert(ps.take(i + 1).map_values(|p: Seq<char>| spec_trim(p))
                =~= ps.take(i as int).map_values(|p: Seq<char>| spec_trim(p)).push(spec_trim(ps[i as int])));
        }
        i = i + 1;
    }
    proof { assert(ps.take(pieces@.len() as int) =~= ps); }
    out
}

/// Whether a character is an ASCII decimal digit.
pub open spec fn is_digit(c: char) -> bool {
    '0' <= c <= '9'
}

/// The value of a string of decimal digits.
pub open spec fn digits_value(s: Seq<char>) -> nat
    decreases s.len(),
{
    if s.len() == 0 { 0 } else { (digits_value(s.drop_last()) * 10 + (s.last() as int - '0' as int)) as nat }
}

/// What `u8::from_str` reads: an optional `+`, then one or more decimal
/// digits whose value fits in a byte.
pub open spec fn spec_parse_u8(s: Seq<char>) -> Option<u8> {
    let d = unsigned_digits(s);
    if d.len() > 0 && all_digits(d) && digits_value(d) <= 255 {
        Some(digits_value(d) as u8)
    } else {
        None
    }
}

/// The text after an optional leading `+`.
pub open spec fn unsigned_digits(s: Seq<char>) -> Seq<char> {
    if s.len() > 0 && s[0] == '+' { s.skip(1) } else { s }
}

/// Whether every character is a decimal digit.
pub open spec fn all_digits(d: Seq<char>) -> bool {
    forall|i: int| 0 <= i < d.len() ==> is_digit(#[trigger] d[i])
}

/// Reads a byte value as `u8::from_str` does.
pub fn parse_u8(s: &str) -> (r: Option<u8>)
    ensures
        r == spec_parse_u8(s@),
{
    let cs = chars_of(s);
    let start: usize = if cs.len() > 0 && cs[0] == '+' { 1 } else { 0 };
    let ghost d = unsigned_digits(s@);
    proof { assert(d =~= cs@.skip(start as int)); }
    if start >= cs.len() {
        return None;
    }
    let mut v: u32 = 0;
    let mut i: usize = start;
    while i < cs.len()
        invariant
            cs@ == s@,
            d == cs@.skip(start as int),
            d == unsigned_digits(s@),
            start <= i <= cs@.len(),
            start < cs@.len(),
            forall|k: int| 0 <= k < i - start ==> is_digit(#[trigger] d[k]),
            v == digits_value(d.take(i - start)),
            v <= 255,
        decreases cs@.len() - i,
    {
        let c = cs[i];
        if !('0' <= c && c <= '9') {
            proof {
                assert(d[i - start] == c);
                assert(!is_digit(d[i - start]));
                assert(!all_digits(d));
            }
            return None;
        }
        let digit = (c as u32) - ('0' as u32);
        proof {
            assert(d.take(i - start + 1).drop_last() =~= d.take(i - start));
            assert(d.take(i - start + 1).last() == c);
        }
        let nv = v * 10 + digit;
        if nv > 255 {
            proof {
                assert(is_digit(d[i - start]));
                if all_digits(d) {
                    lemma_digits_prefix(d, (i - start + 1) as int, d.len() as int);
                    assert(d.take(d.len() as int) =~= d);
                }
            }
            return None;
        }
        v = nv;
        i = i + 1;
    }
    proof { assert(d.take(cs@.len() - start) =~= d); }
    Some(v as u8)
}

proof fn lemma_digits_prefix(d: Seq<char>, k: int, j: int)
    requires
        0 <= k <= j <= d.len(),
        forall|i: int| 0 <= i < j ==> is_digit(#[trigger] d[i]),
    ensures
        digits_value(d.take(j)) >= digits_value(d.take(k)),
    decreases j - k,
{
    if k < j {
        lemma_digits_prefix(d, k, j - 1);
        assert(d.take(j).drop_last() =~= d.take(j - 1));
        assert(is_digit(d[j - 1]));
        assert(d.take(j).last() == d[j - 1]);
    }
}

/// Reads a comma-separated list of PCR indices, each trimmed; the whole
/// list is refused when any item is not a byte value.
pub fn parse_pcr_indices(custom: &str) -> (r: Result<Vec<u8>, String>)
    ensures
        match r {
            Ok(v) => v@.len() == spec_split(custom@, ',').len()
                && forall|i: int| 0 <= i < v@.len() ==> spec_parse_u8(spec_trim(spec_split(custom@, ',')[i])) == Some(#[trigger] v@[i]),
            Err(e) => e@ == "invalid PCR index in '"@ + custom@ + "'"@
                && exists|i: int| 0 <= i < spec_split(custom@, ',').len()
                    && #[trigger] spec_parse_u8(spec_trim(spec_split(custom@, ',')[i])) is None,
        },
{
    let items = trimmed_items(custom);
    let ghost ts = string_views(items@);
    let ghost sp = spec_split(custom@, ',');
    proof {
        assert(ts.len() == sp.len());
        assert forall|k: int| 0 <= k < ts.len() implies #[trigger] ts[k] == spec_trim(sp[k]) by {}
    }
    let mut out: Vec<u8> = Vec::new();
    let mut i: usize = 0;
    while i < items.len()
        invariant
            ts == string_views(items@),
            sp == spec_split(custom@, ','),
            ts.len() == sp.len(),
            forall|k: int| 0 <= k < ts.len() ==> #[trigger] ts[k] == spec_trim(sp[k]),
            0 <= i <= items@.len(),
            out@.len() == i,
            forall|k: int| 0 <= k < i ==> spec_parse_u8(ts[k]) == Some(#[trigger] out@[k]),
        decreases items@.len() - i,
    {
        proof { assert(ts[i as int] == items@[i as int]@); }
        match parse_u8(items[i].as_str()) {
            Some(b) => {
                out.push(b);
            },
            None => {
                proof {
                    assert(ts[i as int] == items@[i as int]@);
                    assert(ts[i as int] == spec_trim(sp[i as int]));
                    assert(spec_parse_u8(spec_trim(sp[i as int])) is None);
                }
                let mut e = String::new();
                append_str(&mut e, "invalid PCR index in '");
                append_str(&mut e, custom);
                append_str(&mut e, "'");
                return Err(e);
            },
        }
        i = i + 1;
    }
    proof {
        assert forall|k: int| 0 <= k < out@.len() implies spec_parse_u8(spec_trim(spec_split(custom@, ',')[k])) == Some(#[trigger] out@[k]) by {
            assert(ts[k] == spec_trim(sp[k]));
        }
    }
    Ok(out)
}

/// What `quant inspect` reads: a file given by path, or a stored model.
pub enum QuantTarget {
    File,
    Stored(ModelId),
}

/// The message when a `.gguf` path does not exist.
pub open spec fn missing_file_message(target: Seq<char>) -> Seq<char> {
    "file not found: "@ + target
}

/// The message when a target is neither an existing path nor `name:tag`.
pub open spec fn not_a_target_message(target: Seq<char>) -> Seq<char> {
    "'"@ + target + "' is not a path or name:tag"@
}

/// Decides what a `quant inspect` target names: an existing path is read as
/// a file; a missing path ending in `.gguf` is an error; anything else must
/// be a model id `name:tag`.
pub fn classify_target(target: &str, path_exists: bool) -> (r: Result<QuantTarget, String>)
    ensures
        path_exists ==> r matches Ok(QuantTarget::File),
        !path_exists && spec_ends_with(target@, ".gguf"@) ==> (r matches Err(m) && m@ == missing_file_message(target@)),
        !path_exists && !spec_ends_with(target@, ".gguf"@) ==> match spec_split_model_id(target@) {
            Some(parts) => r matches Ok(QuantTarget::Stored(id)) && (id.name@, id.tag@) == parts,
            None => r matches Err(m) && m@ == not_a_target_message(target@),
        },
{
    if path_exists {
        return Ok(QuantTarget::File);
    }
    let cs = chars_of(target);
    let suffix = chars_of(".gguf");
    if ends_with_chars(cs.as_slice(), suffix.as_slice()) {
        let mut m = String::new();
        append_str(&mut m, "file not found: ");
        append_str(&mut m, target);
        return Err(m);
    }
    match ModelId::parse(target) {
        Some(id) => Ok(QuantTarget::Stored(id)),
        None => {
            let mut m = String::new();
            append_str(&mut m, "'");
            append_str(&mut m, target);
            append_str(&mut m, "' is not a path or name:tag");
            Err(m)
        },
    }
}

/// The recommendation of `quant recommend` over the listed formats.
#[derive(Debug, Clone, Copy, PartialEq, Eq, Structural)]
pub enum QuantPick {
    /// The default format fits: the row at this index.
    Default(usize),
    /// The default does not fit; the first row that fits.
    BestFit(usize),
    /// No format fits.
    Nothing,
}

/// The first index from `from` on whose row fits and is the default pick.
pub open spec fn first_fitting_default(formats: Seq<QuantFormat>, fits: Seq<bool>, from: int) -> Option<int>
    decreases formats.len() - from,
{
    if from < 0 || from >= formats.len() {
        None
    } else if fits[from] && formats[from].default_pick {
        Some(from)
    } else {
        first_fitting_default(formats, fits, from + 1)
    }
}

/// The first index from `from` on whose row fits.
pub open spec fn first_fitting(fits: Seq<bool>, from: int) -> Option<int>
    decreases fits.len() - from,
{
    if from < 0 || from >= fits.len() {
        None
    } else if fits[from] {
        Some(from)
    } else {
        first_fitting(fits, from + 1)
    }
}

/// The pick over rows of formats with whether each fits: the default format
/// where it fits, else the first format that fits, else nothing.
pub open spec fn spec_recommend_pick(formats: Seq<QuantFormat>, fits: Seq<bool>) -> QuantPick {
    match first_fitting_default(formats, fits, 0) {
        Some(i) => QuantPick::Default(i as usize),
        None => match first_fitting(fits, 0) {
            Some(i) => QuantPick::BestFit(i as usize),
            None => QuantPick::Nothing,
        },
    }
}

/// Picks the format `quant recommend` suggests, from the size-table rows and
/// whether each fits in memory.
pub fn recommend_pick(formats: &[QuantFormat], fits: &[bool]) -> (r: QuantPick)
    requires
        formats@.len() == fits@.len(),
    ensures
        r == spec_recommend_pick(formats@, fits@),
{
    let n = formats.len();
    let mut i: usize = n;
    let mut d: Option<usize> = None;
    let mut f: Option<usize> = None;
    while i > 0
        invariant
            n == formats@.len() == fits@.len(),
            0 <= i <= n,
            match d {
                Some(k) => first_fitting_default(formats@, fits@, i as int) == Some(k as int),
                None => first_fitting_default(formats@, fits@, i as int) is None,
            },
            match f {
                Some(k) => first_fitting(fits@, i as int) == Some(k as int),
                None => first_fitting(fits@, i as int) is None,
            },
        decreases i,
    {
        i = i - 1;
        if fits[i] {
            f = Some(i);
            if formats[i].default_pick {
                d = Some(i);
            }
        }
    }
    match d {
        Some(k) => QuantPick::Default(k),
        None => match f {
            Some(k) => QuantPick::BestFit(k),
            None => QuantPick::Nothing,
        },
    }
}

/// A key that `tpm seal` can read for sealing.
#[derive(Debug, Clone, Copy, PartialEq, Eq, Structural)]
pub enum SealSource {
    WorkspaceKek,
    AuditHmac,
}

/// The message for a key purpose that cannot be sealed from a file.
pub open spec fn unknown_purpose_message(purpose: Seq<char>) -> Seq<char> {
    "unknown purpose '"@ + purpose + "' (use workspace-kek, audit-hmac, or admin-cred)"@
}

/// Which key file `tpm seal` reads for a purpose.
pub fn seal_source(purpose: &str) -> (r: Result<SealSource, String>)
    ensures
        purpose@ == "workspace-kek"@ ==> r == Ok::<SealSource, String>(SealSource::WorkspaceKek),
        purpose@ == "audit-hmac"@ ==> r == Ok::<SealSource, String>(SealSource::AuditHmac),
        purpose@ != "workspace-kek"@ && purpose@ != "audit-hmac"@ ==> (r matches Err(m) && m@ == unknown_purpose_message(purpose@)),
{
    proof {
        reveal_strlit("workspace-kek");
        reveal_strlit("audit-hmac");
        assert("workspace-kek"@[0] != "audit-hmac"@[0]);
    }
    if str_eq(purpose, "workspace-kek") {
        Ok(SealSource::WorkspaceKek)
    } else if str_eq(purpose, "audit-hmac") {
        Ok(SealSource::AuditHmac)
    } else {
        let mut m = String::new();
        append_str(&mut m, "unknown purpose '");
        append_str(&mut m, purpose);
        append_str(&mut m, "' (use workspace-kek, audit-hmac, or admin-cred)");
        Err(m)
    }
}

/// The workspace key held as hexadecimal text in its key file: the text with
/// surrounding whitespace removed, decoded.
pub fn decode_kek(text: &str) -> (r: Result<Vec<u8>, HexError>)
    ensures
        match r {
            Ok(v) => spec_hex_decode(encode_utf8(spec_trim(text@))) == Ok::<Seq<u8>, HexError>(v@),
            Err(e) => spec_hex_decode(encode_utf8(spec_trim(text@))) == Err::<Seq<u8>, HexError>(e),
        },
{
    let t = trim(text);
    hex_decode(t.as_str().as_bytes())
}

/// Directories a source scan does not descend into: version control, build
/// output, dependencies and virtual environments.
pub open spec fn spec_skipped_dir(name: Seq<char>) -> bool {
    name == ".git"@ || name == "target"@ || name == "node_modules"@ || name == ".venv"@
        || name == "dist"@ || name == "build"@
}

/// Whether a source scan skips a directory of this name.
pub fn is_skipped_dir(name: &str) -> (r: bool)
    ensures
        r == spec_skipped_dir(name@),
{
    str_eq(name, ".git") || str_eq(name, "target") || str_eq(name, "node_modules") || str_eq(name, ".venv")
        || str_eq(name, "dist") || str_eq(name, "build")
}

/// What one line of a server-sent event stream carries.
#[derive(Debug, Clone, PartialEq, Eq)]
pub enum SseLine {
    /// A `data: ` line with its payload.
    Data(String),
    /// The `data: [DONE]` line that ends a completion stream.
    Done,
    /// Any other line.
    Other,
}

/// The reading of a stream line, a carriage return at its end dropped.
pub open spec fn spec_sse_line(line: Seq<char>) -> Option<Option<Seq<char>>> {
    let l = strip_cr_all(line);
    if spec_starts_with(l, "data: "@) {
        let data = l.skip(6);
        if data == "[DONE]"@ { Some(None) } else { Some(Some(data)) }
    } else {
        None
    }
}

/// A line with every carriage return at its end removed.
pub open spec fn strip_cr_all(line: Seq<char>) -> Seq<char>
    decreases line.len(),
{
    if line.len() > 0 && line.last() == '\r' { strip_cr_all(line.drop_last()) } else { line }
}

/// Reads one line of a completion stream.
pub fn sse_line(line: &str) -> (r: SseLine)
    ensures
        match spec_sse_line(line@) {
            Some(Some(d)) => r matches SseLine::Data(p) && p@ == d,
            Some(None) => r == SseLine::Done,
            None => r == SseLine::Other,
        },
{
    let cs = chars_of(line);
    let mut n = cs.len();
    proof { assert(cs@.take(n as int) =~= line@); }
    while n > 0 && cs[n - 1] == '\r'
        invariant
            cs@ == line@,
            n <= cs@.len(),
            strip_cr_all(cs@.take(n as int)) == strip_cr_all(line@),
        decreases n,
    {
        proof { assert(cs@.take(n as int).drop_last() =~= cs@.take(n - 1)); }
        n = n - 1;
    }
    let l = &cs.as_slice()[0..n];
    proof {
        assert(l@ =~= cs@.take(n as int));
        if n > 0 {
            assert(cs@.take(n as int).last() == cs@[n - 1]);
        }
        assert(strip_cr_all(cs@.take(n as int)) == cs@.take(n as int));
    }
    let prefix = chars_of("data: ");
    proof { reveal_strlit("data: "); }
    if !starts_with_chars(l, prefix.as_slice()) {
        return SseLine::Other;
    }
    let data = string_of(&l[6..n]);
    proof { assert(l@.subrange(6, n as int) =~= l@.skip(6)); }
    if str_eq(data.as_str(), "[DONE]") {
        SseLine::Done
    } else {
        SseLine::Data(data)
    }
}

/// The DLP providers labels can be synchronised from.
#[derive(Debug, Clone, Copy, PartialEq, Eq, Structural)]
pub enum DlpProvider {
    Purview,
    Forcepoint,
    Symantec,
}

/// The provider named by already lower-cased text.
pub open spec fn spec_dlp_provider(l: Seq<char>) -> Option<DlpProvider> {
    if l == "purview"@ {
        Some(DlpProvider::Purview)
    } else if l == "forcepoint"@ {
        Some(DlpProvider::Forcepoint)
    } else if l == "symantec"@ {
        Some(DlpProvider::Symantec)
    } else {
        None
    }
}

/// Reads a DLP provider name, ignoring case; an unknown name gives `None`
/// (the request then carries no provider credentials).
pub fn dlp_provider(s: &str) -> (r: Option<DlpProvider>)
    ensures
        r == spec_dlp_provider(spec_lowercase(s@)),
{
    let l = lowercase(s);
    if str_eq(l.as_str(), "purview") {
        Some(DlpProvider::Purview)
    } else if str_eq(l.as_str(), "forcepoint") {
        Some(DlpProvider::Forcepoint)
    } else if str_eq(l.as_str(), "symantec") {
        Some(DlpProvider::Symantec)
    } else {
        None
    }
}

} // verus!
