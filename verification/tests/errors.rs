use maranode::suggest::{did_you_mean, edit_distance, hint_for, Hint};

#[test]
fn exact_match_canonical() {
    assert_eq!(did_you_mean("GDPR", &["gdpr", "hipaa", "soc2"]), Some("gdpr"));
}

#[test]
fn close_typo() {
    assert_eq!(did_you_mean("gpdr", &["gdpr", "hipaa", "soc2"]), Some("gdpr"));
    assert_eq!(did_you_mean("soc-2", &["gdpr", "hipaa", "soc2", "iso27001"]), Some("soc2"));
}

#[test]
fn no_suggestion_for_garbage() {
    assert_eq!(did_you_mean("zzzzz", &["gdpr", "hipaa"]), None);
}

#[test]
fn edit_distance_basic() {
    assert_eq!(edit_distance("kitten", "sitting"), 3);
    assert_eq!(edit_distance("", "abc"), 3);
    assert_eq!(edit_distance("abc", "abc"), 0);
}

#[test]
fn suggestion_prefers_first_nearest_option() {
    // "hipa" is one edit from "hipaa" and more than two from the others
    assert_eq!(did_you_mean("hipa", &["gdpr", "hipaa", "soc2"]), Some("hipaa"));
    // ties go to the option listed first
    assert_eq!(did_you_mean("ab", &["ax", "ay"]), Some("ax"));
    assert_eq!(did_you_mean("x", &[]), None);
}

#[test]
fn edit_distance_counts_unicode_characters() {
    assert_eq!(edit_distance("é", "e"), 1);
    assert_eq!(edit_distance("abc", ""), 3);
    assert_eq!(edit_distance("flaw", "lawn"), 2);
}

#[test]
fn hints_follow_the_error_text() {
    assert_eq!(hint_for("Connection refused (os error 111)"), Some(Hint::DaemonUnreachable));
    assert_eq!(hint_for("HTTP 401 Unauthorized"), Some(Hint::AuthRequired));
    assert_eq!(hint_for("403 Forbidden"), Some(Hint::AccessDenied));
    assert_eq!(hint_for("404: model not found"), Some(Hint::ModelNotFound));
    assert_eq!(hint_for("404"), None);
    assert_eq!(hint_for("RAG is not enabled"), Some(Hint::RagDisabled));
    assert_eq!(hint_for("invalid model id 'x'"), Some(Hint::ModelIdFormat));
    assert_eq!(hint_for("request timed out"), Some(Hint::TimedOut));
    assert_eq!(hint_for("something else"), None);
}
