//! Audit-log tooling of the command-line client: export formats, tailing,
//! retention dry runs, the isolation report, deletion certificates, syslog
//! forwarding and replay checks.

use vstd::prelude::*;
use crate::suggest::{did_you_mean, spec_suggestion, opt_str_view, option_views};
use crate::text::{append_str, append_decimal, spec_decimal, str_eq, lines_of, spec_lines, string_views, trim,
    spec_trim, concat2};
use crate::bytes::str_from_utf8;
use crate::daemon::ProbeResult;

verus! {

/// A compliance export format.
#[derive(Debug, Clone, Copy, PartialEq, Eq, Structural)]
pub enum ExportFormat {
    Gdpr,
    Hipaa,
    Soc2,
    Iso27001,
    Cef,
    Leef,
}

/// The name of an export format.
pub open spec fn spec_format_name(f: ExportFormat) -> Seq<char> {
    match f {
        ExportFormat::Gdpr => "gdpr"@,
        ExportFormat::Hipaa => "hipaa"@,
        ExportFormat::Soc2 => "soc2"@,
        ExportFormat::Iso27001 => "iso27001"@,
        ExportFormat::Cef => "cef"@,
        ExportFormat::Leef => "leef"@,
    }
}

/// The file extension of an export format.
pub open spec fn spec_format_extension(f: ExportFormat) -> Seq<char> {
    match f {
        ExportFormat::Cef => "cef"@,
        ExportFormat::Leef => "leef"@,
        _ => "csv"@,
    }
}

/// The format a name selects, matched exactly.
pub open spec fn spec_export_format(s: Seq<char>) -> Option<ExportFormat> {
    if s == "gdpr"@ { Some(ExportFormat::Gdpr) }
    else if s == "hipaa"@ { Some(ExportFormat::Hipaa) }
    else if s == "soc2"@ { Some(ExportFormat::Soc2) }
    else if s == "iso27001"@ { Some(ExportFormat::Iso27001) }
    else if s == "cef"@ { Some(ExportFormat::Cef) }
    else if s == "leef"@ { Some(ExportFormat::Leef) }
    else { None }
}

/// The names of the export formats, in the order they are listed.
pub open spec fn export_format_views() -> Seq<Seq<char>> {
    seq!["gdpr"@, "hipaa"@, "soc2"@, "iso27001"@, "cef"@, "leef"@]
}

/// The names accepted by `audit export --format`, in the order listed to users.
pub fn export_format_names() -> (r: Vec<&'static str>)
    ensures
        r@.len() == 6,
        r@[0]@ == "gdpr"@, r@[1]@ == "hipaa"@, r@[2]@ == "soc2"@,
        r@[3]@ == "iso27001"@, r@[4]@ == "cef"@, r@[5]@ == "leef"@,
{
    vec!["gdpr", "hipaa", "soc2", "iso27001", "cef", "leef"]
}

impl ExportFormat {
    /// The format's name.
    pub fn name(&self) -> (r: &'static str)
        ensures
            r@ == spec_format_name(*self),
    {
        match self {
            ExportFormat::Gdpr => "gdpr",
            ExportFormat::Hipaa => "hipaa",
            ExportFormat::Soc2 => "soc2",
            ExportFormat::Iso27001 => "iso27001",
            ExportFormat::Cef => "cef",
            ExportFormat::Leef => "leef",
        }
    }

    /// The extension of files in this format: `csv` for the compliance
    /// frameworks, `cef` and `leef` for the SIEM formats.
    pub fn extension(&self) -> (r: &'static str)
        ensures
            r@ == spec_format_extension(*self),
    {
        match self {
            ExportFormat::Cef => "cef",
            ExportFormat::Leef => "leef",
            _ => "csv",
        }
    }

    /// Selects a format by its exact name. An unknown name is refused with
    /// the closest known name, when one is close.
    pub fn parse(s: &str) -> (r: Result<ExportFormat, Option<&'static str>>)
        ensures
            match r {
                Ok(f) => spec_export_format(s@) == Some(f),
                Err(sug) => spec_export_format(s@) is None
                    && opt_str_view(sug) == spec_suggestion(s@, export_format_views()),
            },
    {
        if str_eq(s, "gdpr") { Ok(ExportFormat::Gdpr) }
        else if str_eq(s, "hipaa") { Ok(ExportFormat::Hipaa) }
        else if str_eq(s, "soc2") { Ok(ExportFormat::Soc2) }
        else if str_eq(s, "iso27001") { Ok(ExportFormat::Iso27001) }
        else if str_eq(s, "cef") { Ok(ExportFormat::Cef) }
        else if str_eq(s, "leef") { Ok(ExportFormat::Leef) }
        else {
            let names = export_format_names();
            assert(option_views(names@) =~= export_format_views());
            Err(did_you_mean(s, names.as_slice()))
        }
    }
}

/// The refusal of an unknown export format.
pub fn unknown_format_message(format: &str, suggestion: Option<&str>) -> (r: String)
    ensures
        r@ == "unknown format '"@ + format@ + "'."@ + match suggestion {
            Some(s) => "  Did you mean "@ + s@ + "?"@,
            None => Seq::empty(),
        } + "\n  Valid formats: gdpr, hipaa, soc2, iso27001, cef, leef"@,
{
    let mut r = String::new();
    append_str(&mut r, "unknown format '");
    append_str(&mut r, format);
    append_str(&mut r, "'.");
    let ghost before = r@;
    match suggestion {
        Some(s) => {
            append_str(&mut r, "  Did you mean ");
            append_str(&mut r, s);
            append_str(&mut r, "?");
        },
        None => {
            assert(before + Seq::<char>::empty() =~= before);
        },
    }
    append_str(&mut r, "\n  Valid formats: gdpr, hipaa, soc2, iso27001, cef, leef");
    r
}

/// The default file an export is written to.
pub fn default_export_path(f: ExportFormat) -> (r: String)
    ensures
        r@ == "audit_"@ + spec_format_name(f) + "."@ + spec_format_extension(f),
{
    let mut r = String::new();
    append_str(&mut r, "audit_");
    append_str(&mut r, f.name());
    append_str(&mut r, ".");
    append_str(&mut r, f.extension());
    r
}

/// The lines of a text that hold more than whitespace, in order.
pub open spec fn nonblank(lines: Seq<Seq<char>>) -> Seq<Seq<char>>
    decreases lines.len(),
{
    if lines.len() == 0 {
        Seq::empty()
    } else {
        let rest = nonblank(lines.drop_last());
        if spec_trim(lines.last()).len() > 0 { rest.push(lines.last()) } else { rest }
    }
}

/// The non-blank lines of a log, in order.
pub fn nonblank_lines(content: &str) -> (r: Vec<String>)
    ensures
        string_views(r@) == nonblank(spec_lines(content@)),
{
    let lines = lines_of(content);
    let ghost ls = string_views(lines@);
    let mut out: Vec<String> = Vec::new();
    let mut i: usize = 0;
    while i < lines.len()
        invariant
            ls == string_views(lines@),
            ls == spec_lines(content@),
            0 <= i <= lines@.len(),
            string_views(out@) == nonblank(ls.take(i as int)),
        decreases lines@.len() - i,
    {
        let t = trim(lines[i].as_str());
        proof {
            assert(ls.take(i + 1).drop_last() =~= ls.take(i as int));
            assert(ls.take(i + 1).last() == lines@[i as int]@);
        }
        if t.unicode_len() > 0 {
            out.push(lines[i].clone());
            proof { assert(string_views(out@) =~= string_views(out@.drop_last()).push(lines@[i as int]@)); }
        }
        i = i + 1;
    }
    proof { assert(ls.take(lines@.len() as int) =~= ls); }
    out
}

/// The last `n` non-blank lines of a log, or all of them when there are fewer.
pub fn tail_lines(content: &str, n: usize) -> (r: Vec<String>)
    ensures
        string_views(r@) == nonblank(spec_lines(content@)).skip(
            if nonblank(spec_lines(content@)).len() > n { nonblank(spec_lines(content@)).len() - n } else { 0 }),
{
    let lines = nonblank_lines(content);
    let start = if lines.len() > n { lines.len() - n } else { 0 };
    let mut out: Vec<String> = Vec::new();
    let mut i: usize = start;
    while i < lines.len()
        invariant
            start <= i <= lines@.len(),
            string_views(out@) == string_views(lines@).subrange(start as int, i as int),
        decreases lines@.len() - i,
    {
        let ghost before = out@;
        out.push(lines[i].clone());
        proof {
            assert(out@ == before.push(lines@[i as int]));
            assert(string_views(out@) =~= string_views(before).push(lines@[i as int]@));
            assert(string_views(out@) =~= string_views(lines@).subrange(start as int, i + 1));
        }
        i = i + 1;
    }
    proof {
        assert(string_views(lines@).subrange(start as int, lines@.len() as int) =~= string_views(lines@).skip(start as int));
    }
    out
}

/// The instant before which entries count as stale: `retain_days` days
/// before `now`, both in milliseconds since the epoch.
pub fn prune_cutoff(now_ms: i64, retain_days: u32) -> (r: i64)
    requires
        now_ms >= i64::MIN + 4_294_967_295 * 86_400_000,
    ensures
        r == now_ms - retain_days * 86_400_000,
{
    now_ms - (retain_days as i64) * 86_400_000
}

/// How many of the given entry times are earlier than the cutoff; entries
/// whose time could not be read do not count.
pub open spec fn stale_count(ts: Seq<Option<i64>>, cutoff: i64) -> nat
    decreases ts.len(),
{
    if ts.len() == 0 {
        0
    } else {
        stale_count(ts.drop_last(), cutoff) + match ts.last() {
            Some(t) => if t < cutoff { 1nat } else { 0nat },
            None => 0nat,
        }
    }
}

/// Counts the entries a prune would remove.
pub fn count_stale(ts: &[Option<i64>], cutoff: i64) -> (r: usize)
    ensures
        r == stale_count(ts@, cutoff),
{
    let mut n: usize = 0;
    let mut i: usize = 0;
    while i < ts.len()
        invariant
            0 <= i <= ts@.len(),
            n == stale_count(ts@.take(i as int), cutoff),
            n <= i,
        decreases ts@.len() - i,
    {
        proof { assert(ts@.take(i + 1).drop_last() =~= ts@.take(i as int)); }
        match ts[i] {
            Some(t) => {
                if t < cutoff {
                    n = n + 1;
                }
            },
            None => {},
        }
        i = i + 1;
    }
    proof { assert(ts@.take(ts@.len() as int) =~= ts@); }
    n
}

/// One isolation probe recorded in the audit log.
#[derive(Debug, Clone)]
pub struct ProbeRecord {
    /// When it ran, in milliseconds since the epoch.
    pub ts_ms: i64,
    pub seq: u64,
    pub isolated: bool,
    pub results: Vec<ProbeResult>,
    pub iptables_hash: String,
}

/// Whether a probe belongs in the report: within the time range (both ends
/// included) and, when only drift is asked for, not isolated.
pub open spec fn in_report(p: ProbeRecord, from: Option<i64>, to: Option<i64>, drift_only: bool) -> bool {
    &&& (from matches Some(f) ==> p.ts_ms >= f)
    &&& (to matches Some(t) ==> p.ts_ms <= t)
    &&& (drift_only ==> !p.isolated)
}

/// The indices of the probes in the report, in log order.
pub open spec fn report_indices(probes: Seq<ProbeRecord>, from: Option<i64>, to: Option<i64>, drift_only: bool) -> Seq<int>
    decreases probes.len(),
{
    if probes.len() == 0 {
        Seq::empty()
    } else {
        let rest = report_indices(probes.drop_last(), from, to, drift_only);
        if in_report(probes.last(), from, to, drift_only) { rest.push(probes.len() - 1) } else { rest }
    }
}

/// How many of the selected probes saw egress.
pub open spec fn drift_count(probes: Seq<ProbeRecord>, idx: Seq<int>) -> nat
    decreases idx.len(),
{
    if idx.len() == 0 {
        0
    } else {
        drift_count(probes, idx.drop_last()) + if probes[idx.last()].isolated { 0nat } else { 1nat }
    }
}

/// The probes shown by the isolation report and how many of them drifted.
pub struct IsolationReport {
    pub selected: Vec<usize>,
    pub drift_count: usize,
}

/// Selects the probes of an isolation report and counts the drifting ones.
pub fn isolation_report(probes: &[ProbeRecord], from: Option<i64>, to: Option<i64>, drift_only: bool) -> (r: IsolationReport)
    ensures
        r.selected@.map_values(|i: usize| i as int) == report_indices(probes@, from, to, drift_only),
        r.drift_count == drift_count(probes@, report_indices(probes@, from, to, drift_only)),
{
    let mut selected: Vec<usize> = Vec::new();
    let mut drift: usize = 0;
    let mut i: usize = 0;
    while i < probes.len()
        invariant
            0 <= i <= probes@.len(),
            selected@.map_values(|k: usize| k as int) == report_indices(probes@.take(i as int), from, to, drift_only),
            forall|k: int| 0 <= k < selected@.len() ==> selected@[k] < i,
            drift == drift_count(probes@, report_indices(probes@.take(i as int), from, to, drift_only)),
            drift <= selected@.len(),
            selected@.len() <= i,
        decreases probes@.len() - i,
    {
        let p = &probes[i];
        let ghost prev = report_indices(probes@.take(i as int), from, to, drift_only);
        proof {
            assert(probes@.take(i + 1).drop_last() =~= probes@.take(i as int));
            assert(probes@.take(i + 1).last() == probes@[i as int]);
        }
        let keep = (match from { Some(f) => p.ts_ms >= f, None => true })
            && (match to { Some(t) => p.ts_ms <= t, None => true })
            && (!drift_only || !p.isolated);
        if keep {
            selected.push(i);
            if !p.isolated {
                drift = drift + 1;
            }
            proof {
                assert(selected@.map_values(|k: usize| k as int) =~= prev.push(i as int));
                assert(prev.push(i as int).drop_last() =~= prev);
            }
        }
        i = i + 1;
    }
    proof { assert(probes@.take(probes@.len() as int) =~= probes@); }
    IsolationReport { selected, drift_count: drift }
}

/// The hosts and ports a probe reached, in probe order.
pub open spec fn reached(rs: Seq<ProbeResult>) -> Seq<(String, u16)>
    decreases rs.len(),
{
    if rs.len() == 0 {
        Seq::empty()
    } else {
        let rest = reached(rs.drop_last());
        if rs.last().reachable { rest.push((rs.last().host, rs.last().port)) } else { rest }
    }
}

/// The hosts a drifting probe could reach, in probe order.
pub fn reachable_targets(p: &ProbeRecord) -> (r: Vec<(String, u16)>)
    ensures
        r@ == reached(p.results@),
{
    let mut r: Vec<(String, u16)> = Vec::new();
    let mut i: usize = 0;
    while i < p.results.len()
        invariant
            0 <= i <= p.results@.len(),
            r@ == reached(p.results@.take(i as int)),
        decreases p.results@.len() - i,
    {
        let res = &p.results[i];
        proof {
            assert(p.results@.take(i + 1).drop_last() =~= p.results@.take(i as int));
            assert(p.results@.take(i + 1).last() == p.results@[i as int]);
        }
        if res.reachable {
            r.push((res.host.clone(), res.port));
        }
        i = i + 1;
    }
    proof { assert(p.results@.take(p.results@.len() as int) =~= p.results@); }
    r
}

/// The text of a deletion certificate.
pub open spec fn spec_deletion_certificate(slug: Seq<char>, timestamp: Seq<char>, seq: nat, actor: Seq<char>,
    hmac: Seq<char>, statement: Seq<char>) -> Seq<char> {
    "DELETION CERTIFICATE\n====================\n\nworkspace : "@ + slug + "\ntimestamp : "@ + timestamp
        + "\naudit seq : "@ + spec_decimal(seq) + "\nactor     : "@ + actor + "\nhmac      : "@ + hmac
        + "\n\nstatement :\n  "@ + statement
        + "\n\nThis certificate is derived from an HMAC-chained audit log entry.\nverify integrity with: maranode audit verify\n"@
}

/// Writes the deletion certificate of a shredded workspace from its audit entry.
pub fn deletion_certificate(slug: &str, timestamp: &str, seq: u64, actor: &str, hmac: &str, statement: &str) -> (r: String)
    ensures
        r@ == spec_deletion_certificate(slug@, timestamp@, seq as nat, actor@, hmac@, statement@),
{
    let mut r = String::new();
    append_str(&mut r, "DELETION CERTIFICATE\n====================\n\nworkspace : ");
    append_str(&mut r, slug);
    append_str(&mut r, "\ntimestamp : ");
    append_str(&mut r, timestamp);
    append_str(&mut r, "\naudit seq : ");
    append_decimal(&mut r, seq);
    append_str(&mut r, "\nactor     : ");
    append_str(&mut r, actor);
    append_str(&mut r, "\nhmac      : ");
    append_str(&mut r, hmac);
    append_str(&mut r, "\n\nstatement :\n  ");
    append_str(&mut r, statement);
    append_str(&mut r, "\n\nThis certificate is derived from an HMAC-chained audit log entry.\nverify integrity with: maranode audit verify\n");
    r
}

/// The file a deletion certificate is written to by default.
pub fn default_certificate_path(slug: &str) -> (r: String)
    ensures
        r@ == "deletion_cert_"@ + slug@ + ".txt"@,
{
    let mut r = concat2("deletion_cert_", slug);
    append_str(&mut r, ".txt");
    r
}

/// The refusal when a workspace has no deletion certificate.
pub fn missing_certificate_message(slug: &str) -> (r: String)
    ensures
        r@ == "no deletion certificate found for workspace '"@ + slug@ + "'. run `maranode workspace shred "@
            + slug@ + " --yes` first."@,
{
    let mut r = String::new();
    append_str(&mut r, "no deletion certificate found for workspace '");
    append_str(&mut r, slug);
    append_str(&mut r, "'. run `maranode workspace shred ");
    append_str(&mut r, slug);
    append_str(&mut r, " --yes` first.");
    r
}

/// A syslog (RFC 5424) message carrying one CEF event: facility user,
/// severity informational.
pub fn syslog_message(timestamp: &str, hostname: &str, line: &str) -> (r: String)
    ensures
        r@ == "<14>1 "@ + timestamp@ + " "@ + hostname@ + " maranode - - - "@ + line@ + "\n"@,
{
    let mut r = String::new();
    append_str(&mut r, "<14>1 ");
    append_str(&mut r, timestamp);
    append_str(&mut r, " ");
    append_str(&mut r, hostname);
    append_str(&mut r, " maranode - - - ");
    append_str(&mut r, line);
    append_str(&mut r, "\n");
    r
}

/// The transport events are forwarded over.
#[derive(Debug, Clone, Copy, PartialEq, Eq, Structural)]
pub enum SyslogTransport {
    Udp,
    Tcp,
}

/// UDP when asked for by name, TCP otherwise.
pub fn syslog_transport(name: &str) -> (r: SyslogTransport)
    ensures
        r == if name@ == "udp"@ { SyslogTransport::Udp } else { SyslogTransport::Tcp },
{
    if str_eq(name, "udp") { SyslogTransport::Udp } else { SyslogTransport::Tcp }
}

/// The host name reported in forwarded events: the trimmed output of the
/// `hostname` command when it ran, is UTF-8 and is not blank, else `unknown`.
pub fn hostname_or_unknown(command_output: Option<&[u8]>) -> (r: String)
    ensures
        r@ == match command_output {
            Some(out) => if vstd::utf8::valid_utf8(out@) && spec_trim(vstd::utf8::decode_utf8(out@)).len() > 0 {
                spec_trim(vstd::utf8::decode_utf8(out@))
            } else {
                "unknown"@
            },
            None => "unknown"@,
        },
{
    match command_output {
        Some(out) => match str_from_utf8(out) {
            Some(text) => {
                let t = trim(text);
                if t.unicode_len() > 0 { t } else { "unknown".to_owned() }
            },
            None => "unknown".to_owned(),
        },
        None => "unknown".to_owned(),
    }
}

/// The token limit of a replayed inference: the recorded one, or the default.
pub fn replay_max_tokens(recorded: Option<u32>) -> (r: u32)
    ensures
        r == match recorded { Some(m) => m, None => 2048 },
{
    match recorded {
        Some(m) => m,
        None => crate::models::default_max_tokens(),
    }
}

/// A replay reproduces an inference when the output hashes are equal.
pub fn replay_matches(stored_output_sha256: &str, replay_output_sha256: &str) -> (r: bool)
    ensures
        r == (stored_output_sha256@ == replay_output_sha256@),
{
    str_eq(stored_output_sha256, replay_output_sha256)
}

/// How one RAG source of a receipt checked out against the store.
#[derive(Debug, Clone, Copy, PartialEq, Eq, Structural)]
pub enum SourceCheck {
    /// The chunk's hash matches.
    Intact,
    /// The chunk changed since the inference.
    Tampered,
    /// The chunk is gone.
    NotFound,
}

/// Sources verify when every one of them is intact.
pub fn sources_verified(checks: &[SourceCheck]) -> (r: bool)
    ensures
        r == forall|i: int| 0 <= i < checks@.len() ==> #[trigger] checks@[i] == SourceCheck::Intact,
{
    let mut i: usize = 0;
    while i < checks.len()
        invariant
            0 <= i <= checks@.len(),
            forall|j: int| 0 <= j < i ==> #[trigger] checks@[j] == SourceCheck::Intact,
        decreases checks@.len() - i,
    {
        if !matches!(checks[i], SourceCheck::Intact) {
            return false;
        }
        i = i + 1;
    }
    true
}

} // verus!
