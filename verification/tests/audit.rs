use maranode::audit::{count_stale, default_certificate_path, default_export_path, deletion_certificate,
    hostname_or_unknown, isolation_report, missing_certificate_message, nonblank_lines, prune_cutoff,
    reachable_targets, replay_matches, replay_max_tokens, sources_verified, syslog_message, syslog_transport,
    tail_lines, unknown_format_message, ExportFormat, ProbeRecord, SourceCheck, SyslogTransport};
use maranode::daemon::ProbeResult;

#[test]
fn export_formats() {
    assert_eq!(ExportFormat::parse("hipaa"), Ok(ExportFormat::Hipaa));
    assert_eq!(ExportFormat::parse("leef").map(|f| f.extension()), Ok("leef"));
    assert_eq!(ExportFormat::parse("HIPAA"), Err(Some("hipaa")));
    assert_eq!(ExportFormat::parse("soc-2"), Err(Some("soc2")));
    assert_eq!(ExportFormat::parse("pdf"), Err(Some("cef")));
    assert_eq!(ExportFormat::parse("xlsxxx"), Err(None));
    assert_eq!(default_export_path(ExportFormat::Soc2), "audit_soc2.csv");
    assert_eq!(default_export_path(ExportFormat::Cef), "audit_cef.cef");
    assert_eq!(
        unknown_format_message("soc-2", Some("soc2")),
        "unknown format 'soc-2'.  Did you mean soc2?\n  Valid formats: gdpr, hipaa, soc2, iso27001, cef, leef"
    );
    assert_eq!(
        unknown_format_message("pdf", None),
        "unknown format 'pdf'.\n  Valid formats: gdpr, hipaa, soc2, iso27001, cef, leef"
    );
}

#[test]
fn tail_keeps_the_last_nonblank_lines() {
    let log = "{\"seq\":1}\n\n  \n{\"seq\":2}\r\n{\"seq\":3}\n";
    assert_eq!(nonblank_lines(log), vec!["{\"seq\":1}", "{\"seq\":2}", "{\"seq\":3}"]);
    assert_eq!(tail_lines(log, 2), vec!["{\"seq\":2}", "{\"seq\":3}"]);
    assert_eq!(tail_lines(log, 10).len(), 3);
    assert!(tail_lines("", 5).is_empty());
}

#[test]
fn retention_dry_run_counts() {
    let day = 86_400_000i64;
    let now = 100 * day;
    let cutoff = prune_cutoff(now, 30);
    assert_eq!(cutoff, 70 * day);
    let ts = vec![Some(10 * day), None, Some(70 * day), Some(69 * day), Some(99 * day)];
    assert_eq!(count_stale(&ts, cutoff), 2);
}

fn probe(ts: i64, isolated: bool) -> ProbeRecord {
    ProbeRecord {
        ts_ms: ts,
        seq: ts as u64,
        isolated,
        results: vec![
            ProbeResult { host: "1.1.1.1".to_string(), port: 53, reachable: !isolated },
            ProbeResult { host: "8.8.8.8".to_string(), port: 53, reachable: false },
        ],
        iptables_hash: String::new(),
    }
}

#[test]
fn isolation_report_selects_and_counts() {
    let probes = vec![probe(1, true), probe(2, false), probe(3, true), probe(4, false)];
    let all = isolation_report(&probes, None, None, false);
    assert_eq!(all.selected, vec![0, 1, 2, 3]);
    assert_eq!(all.drift_count, 2);
    let ranged = isolation_report(&probes, Some(2), Some(3), false);
    assert_eq!(ranged.selected, vec![1, 2]);
    assert_eq!(ranged.drift_count, 1);
    let drift = isolation_report(&probes, None, None, true);
    assert_eq!(drift.selected, vec![1, 3]);
    assert_eq!(reachable_targets(&probes[1]), vec![("1.1.1.1".to_string(), 53)]);
    assert!(reachable_targets(&probes[0]).is_empty());
}

#[test]
fn certificates_and_forwarding() {
    let cert = deletion_certificate("acme", "2024-01-01T00:00:00+00:00", 42, "admin", "abcd", "all data erased");
    assert!(cert.starts_with("DELETION CERTIFICATE\n====================\n\nworkspace : acme\n"));
    assert!(cert.contains("audit seq : 42\n"));
    assert!(cert.ends_with("verify integrity with: maranode audit verify\n"));
    assert_eq!(default_certificate_path("acme"), "deletion_cert_acme.txt");
    assert!(missing_certificate_message("acme").contains("maranode workspace shred acme --yes"));
    assert_eq!(syslog_message("T", "h", "CEF:0|x"), "<14>1 T h maranode - - - CEF:0|x\n");
    assert_eq!(syslog_transport("udp"), SyslogTransport::Udp);
    assert_eq!(syslog_transport("UDP"), SyslogTransport::Tcp);
    assert_eq!(hostname_or_unknown(Some(b"node1\n")), "node1");
    assert_eq!(hostname_or_unknown(Some(b"  \n")), "unknown");
    assert_eq!(hostname_or_unknown(Some(&[0xff, 0xfe])), "unknown");
    assert_eq!(hostname_or_unknown(None), "unknown");
}

#[test]
fn replay_and_sources() {
    assert_eq!(replay_max_tokens(None), 2048);
    assert_eq!(replay_max_tokens(Some(64)), 64);
    assert!(replay_matches("ab", "ab"));
    assert!(!replay_matches("ab", "ac"));
    assert!(sources_verified(&[SourceCheck::Intact, SourceCheck::Intact]));
    assert!(!sources_verified(&[SourceCheck::Intact, SourceCheck::NotFound]));
    assert!(!sources_verified(&[SourceCheck::Tampered]));
    assert!(sources_verified(&[]));
}
