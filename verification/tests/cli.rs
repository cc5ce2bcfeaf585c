use maranode::cli::{endpoint_url, format_uptime, iptables_summary, network_probes, network_verdict, parse_model_type,
    parse_pcr_indices, parse_sev, parse_u8, pull_url, sev_rank, trimmed_items, truncate, webhook_list, NetworkVerdict,
    Severity};
use maranode::models::ModelType;
use maranode::text::{pad, pad_right};
use maranode::cli::{classify_target, QuantTarget};
use maranode::cli::{recommend_pick, QuantPick};
use maranode::cli::{seal_source, SealSource};
use maranode::cli::{decode_kek, is_skipped_dir, sse_line, SseLine};
use maranode::digest::HexError;
use maranode::quant::{quant_formats, size_table_formats};
use maranode::cli::{dlp_provider, DlpProvider};

#[test]
fn uptime_formats() {
    assert_eq!(format_uptime(59), "0m 59s");
    assert_eq!(format_uptime(3661), "1h 1m");
    assert_eq!(format_uptime(90061), "1d 1h 1m");
}

#[test]
fn truncation() {
    assert_eq!(truncate("hello world", 5), "hello\u{2026}");
    assert_eq!(truncate("a\nb", 10), "a b");
    assert_eq!(truncate("héllo", 5), "héllo");
    assert_eq!(truncate("line1\nline2", 6), "line1 \u{2026}");
}

#[test]
fn pull_sources() {
    assert_eq!(pull_url("https://x.test/m.gguf"), Ok("https://x.test/m.gguf".to_string()));
    assert_eq!(
        pull_url("bartowski/Llama-3.2-3B-Instruct-GGUF/Llama-3.2-3B-Instruct-Q4_K_M.gguf"),
        Ok("https://huggingface.co/bartowski/Llama-3.2-3B-Instruct-GGUF/resolve/main/Llama-3.2-3B-Instruct-Q4_K_M.gguf".to_string())
    );
    assert_eq!(pull_url("a/b/c/d.gguf"), Ok("https://huggingface.co/a/b/resolve/main/c/d.gguf".to_string()));
    assert_eq!(
        pull_url("owner/repo"),
        Err("invalid source 'owner/repo': expected owner/repo/filename.gguf or a full URL".to_string())
    );
}

#[test]
fn model_types_and_severities() {
    assert_eq!(parse_model_type("Embed").model_type, ModelType::Embedding);
    assert_eq!(parse_model_type("").model_type, ModelType::Llm);
    let odd = parse_model_type("embeding");
    assert_eq!(odd.model_type, ModelType::Llm);
    assert_eq!(odd.unknown.as_deref(), Some("embeding"));
    assert_eq!(odd.suggestion, Some("embedding"));
    assert_eq!(parse_sev("HIGH"), Severity::High);
    assert_eq!(parse_sev("med"), Severity::Medium);
    assert_eq!(parse_sev("whatever"), Severity::Low);
    assert_eq!(sev_rank(Severity::High), 3);
    assert_eq!(sev_rank(Severity::Low), 1);
}

#[test]
fn network_verification() {
    assert_eq!(endpoint_url("http://127.0.0.1:11984//", "/health"), "http://127.0.0.1:11984/health");
    assert_eq!(network_verdict(Some(true), false), NetworkVerdict::Verified);
    assert_eq!(network_verdict(Some(true), true), NetworkVerdict::NotEnforced);
    assert_eq!(network_verdict(None, false), NetworkVerdict::FlagOff);
    assert_eq!(network_probes()[0].2, "Cloudflare (1.1.1.1:443)");
    let saved = "*filter\n:INPUT DROP [0:0]\n-P OUTPUT DROP\n-A INPUT -p tcp --dport 11984 -j ACCEPT\n-A INPUT -m comment --comment maranode-managed\n";
    assert_eq!(iptables_summary(saved), "OUTPUT policy is DROP, 2 maranode-related rule(s) present");
    assert_eq!(iptables_summary(""), "OUTPUT policy is ACCEPT (not air-gapped), 0 maranode-related rule(s)");
}

#[test]
fn lists_and_numbers() {
    assert_eq!(webhook_list(Some(" https://a , ,https://b,")), vec!["https://a", "https://b"]);
    assert!(webhook_list(None).is_empty());
    assert_eq!(trimmed_items("workspace-kek, audit-hmac"), vec!["workspace-kek", "audit-hmac"]);
    assert_eq!(parse_u8("+7"), Some(7));
    assert_eq!(parse_u8("255"), Some(255));
    assert_eq!(parse_u8("256"), None);
    assert_eq!(parse_u8(""), None);
    assert_eq!(parse_u8("-1"), None);
    assert_eq!(parse_pcr_indices("0, 7"), Ok(vec![0, 7]));
    assert_eq!(parse_pcr_indices("0,x"), Err("invalid PCR index in '0,x'".to_string()));
    assert_eq!(parse_pcr_indices("0,"), Err("invalid PCR index in '0,'".to_string()));
}

#[test]
fn table_padding() {
    assert_eq!(pad("ab", 4), "ab  ");
    assert_eq!(pad_right("ab", 4), "  ab");
    assert_eq!(pad("abcdef", 3), "abcdef");
}

#[test]
fn quant_targets_are_classified() {
    assert!(matches!(classify_target("/tmp/x.gguf", true), Ok(QuantTarget::File)));
    assert_eq!(classify_target("model.gguf", false).err().unwrap(), "file not found: model.gguf");
    match classify_target("llama3:8b", false) {
        Ok(QuantTarget::Stored(id)) => {
            assert_eq!(id.name, "llama3");
            assert_eq!(id.tag, "8b");
        }
        _ => panic!("expected a stored model"),
    }
    assert_eq!(classify_target("llama3", false).err().unwrap(), "'llama3' is not a path or name:tag");
}

#[test]
fn recommendation_prefers_the_default_that_fits() {
    let formats = quant_formats();
    let q4 = formats.iter().position(|f| f.name == "Q4_K_M").unwrap();
    let all = vec![true; formats.len()];
    assert_eq!(recommend_pick(&formats, &all), QuantPick::Default(q4));
    let mut only_small = vec![false; formats.len()];
    let last = formats.len() - 1;
    only_small[last] = true;
    assert_eq!(recommend_pick(&formats, &only_small), QuantPick::BestFit(last));
    let none = vec![false; formats.len()];
    assert_eq!(recommend_pick(&formats, &none), QuantPick::Nothing);
}

#[test]
fn seal_sources_by_purpose() {
    assert_eq!(seal_source("workspace-kek"), Ok(SealSource::WorkspaceKek));
    assert_eq!(seal_source("audit-hmac"), Ok(SealSource::AuditHmac));
    assert_eq!(
        seal_source("admin-cred").err().unwrap(),
        "unknown purpose 'admin-cred' (use workspace-kek, audit-hmac, or admin-cred)"
    );
}

#[test]
fn kek_hex_is_trimmed_and_decoded() {
    assert_eq!(decode_kek("  00ff10Ab\n"), Ok(vec![0x00, 0xff, 0x10, 0xab]));
    assert_eq!(decode_kek("abc"), Err(HexError::OddLength));
    assert_eq!(decode_kek("0g"), Err(HexError::InvalidByte { byte: b'g', index: 1 }));
    assert_eq!(decode_kek(""), Ok(vec![]));
}

#[test]
fn size_table_leaves_out_full_precision() {
    let rows = size_table_formats();
    assert_eq!(rows.len(), quant_formats().len() - 1);
    assert_eq!(rows[0].name, "F16");
    assert!(rows.iter().all(|f| f.bits_per_weight_tenths <= 160));
}

#[test]
fn scans_skip_build_and_vcs_directories() {
    for d in [".git", "target", "node_modules", ".venv", "dist", "build"] {
        assert!(is_skipped_dir(d));
    }
    assert!(!is_skipped_dir("src"));
    assert!(!is_skipped_dir("Target"));
}

#[test]
fn completion_stream_lines() {
    assert_eq!(sse_line("data: {\"a\":1}\r"), SseLine::Data("{\"a\":1}".to_string()));
    assert_eq!(sse_line("data: [DONE]"), SseLine::Done);
    assert_eq!(sse_line("data: [DONE]\r\r"), SseLine::Done);
    assert_eq!(sse_line(": keep-alive"), SseLine::Other);
    assert_eq!(sse_line("data:x"), SseLine::Other);
    assert_eq!(sse_line("data: "), SseLine::Data(String::new()));
}

#[test]
fn unknown_model_type_is_reported_lowercased_with_its_suggestion() {
    let odd = parse_model_type("LLMM");
    assert_eq!(odd.model_type, ModelType::Llm);
    assert_eq!(odd.unknown.as_deref(), Some("llmm"));
    assert_eq!(odd.suggestion, Some("llm"));
    let far = parse_model_type("vision");
    assert_eq!(far.unknown.as_deref(), Some("vision"));
    assert_eq!(far.suggestion, None);
}

#[test]
fn dlp_providers_are_read_ignoring_case() {
    assert_eq!(dlp_provider("Purview"), Some(DlpProvider::Purview));
    assert_eq!(dlp_provider("forcepoint"), Some(DlpProvider::Forcepoint));
    assert_eq!(dlp_provider("SYMANTEC"), Some(DlpProvider::Symantec));
    assert_eq!(dlp_provider("mcafee"), None);
}
