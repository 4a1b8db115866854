use forge_approval_template::code_analysis::{CodeAnalysis, Checker};
use forge_approval_template::facts::ManifestFacts;
use forge_approval_template::flags::{
    check, contains_word, contains_word_lowered, ends_with_qualifier, ends_with_qualifier_lowered,
    leading_mark, starts_with_word, starts_with_word_lowered, unqualified_mark,
};
use forge_approval_template::questionnaire::ReviewSignal;

#[test]
fn leading_product_name_is_a_blocking_flag() {
    // The guidelines' own example of a rejection.
    assert_eq!(leading_mark("Jira App X"), Some("Jira"));
    assert_eq!(leading_mark("confluence toolkit"), Some("Confluence"));
    // Longest match wins.
    assert_eq!(
        leading_mark("Jira Service Management Helper"),
        Some("Jira Service Management")
    );
}

#[test]
fn trailing_qualifier_is_allowed() {
    // The guidelines' own example of an approval.
    assert_eq!(leading_mark("App X for Jira"), None);
    assert_eq!(unqualified_mark("App X for Jira"), None);
    assert_eq!(unqualified_mark("Timesheets for Confluence"), None);
}

#[test]
fn product_names_are_matched_on_word_boundaries() {
    // "Jiraffe" is not "Jira", and must not be flagged.
    assert_eq!(leading_mark("Jiraffe Reports"), None);
    assert_eq!(unqualified_mark("Jiraffe Reports"), None);
    assert_eq!(leading_mark("Compasses and Maps"), None);
}

#[test]
fn mid_name_mention_is_only_advisory() {
    let mark = unqualified_mark("Best Jira Reports Ever");
    assert_eq!(mark, Some("Jira"));
}

#[test]
fn flags_are_ordered_most_severe_first() {
    let severities = [
        ReviewSignal::Info,
        ReviewSignal::Fail,
        ReviewSignal::Warning,
    ];
    let mut sorted = severities;
    sorted.sort_by(|a, b| b.cmp(a));
    assert_eq!(
        sorted,
        [
            ReviewSignal::Fail,
            ReviewSignal::Warning,
            ReviewSignal::Info
        ]
    );
}

// ---------------------------------------------------------------------------
// Further cases
// ---------------------------------------------------------------------------

fn facts(source: &str) -> ManifestFacts {
    ManifestFacts::from_yaml(source).expect("manifest should parse")
}

#[test]
fn check_orders_its_flags_most_severe_first() {
    // A trademark prefix (blocking), a wildcard egress (warning) and an
    // interpolated remote (info).
    let source = "
app:
  id: x
  name: Jira Helper
remotes:
  - key: r
    baseUrl: '${URL}'
permissions:
  external:
    fetch:
      backend:
        - '*'
";
    let flags = check(&facts(source), None);
    let ids: Vec<&str> = flags.iter().map(|f| f.id).collect();
    assert_eq!(
        ids,
        vec!["naming.trademark_prefix", "egress.overly_broad", "remote.base_url_interpolated"]
    );
    assert_eq!(flags[2].evidence[0].pointer, "remotes[0].baseUrl");
    assert_eq!(flags[2].evidence[0].value, "${URL}");
    assert_eq!(
        flags[0].detail,
        "The name starts with \"Jira\". The approval guidelines give this exact shape as an \
         automatic rejection. Rename it so the product name trails instead, for example \
         \"<Your app> for Jira\"."
    );
}

#[test]
fn a_missing_name_is_only_informational() {
    let flags = check(&facts("app:\n  id: x\n"), None);
    assert_eq!(flags.len(), 1);
    assert_eq!(flags[0].id, "listing.app_name_missing");
    assert_eq!(flags[0].severity, ReviewSignal::Info);
}

#[test]
fn a_runtime_finding_becomes_a_warning() {
    let code = CodeAnalysis::from_findings(
        vec![Checker::RuntimeVersion],
        vec![(
            "Forge Runtime Version Policy Checker".to_string(),
            "nodejs18.x is end of life".to_string(),
        )],
    );
    let flags = check(&facts("app:\n  id: x\n  name: Reports\n"), Some(&code));
    assert_eq!(flags.len(), 1);
    assert_eq!(flags[0].id, "runtime.end_of_life");
    assert_eq!(flags[0].severity, ReviewSignal::Warning);
    assert_eq!(flags[0].evidence[0].value, "nodejs18.x is end of life");
}

#[test]
fn a_qualified_mention_raises_nothing() {
    assert!(check(&facts("app:\n  id: x\n  name: Reports for Jira\n"), None).is_empty());
    let mention = check(&facts("app:\n  id: x\n  name: Best Jira Reports\n"), None);
    assert_eq!(mention[0].id, "naming.trademark_mention");
    assert_eq!(mention[0].severity, ReviewSignal::Warning);
}

#[test]
fn a_placeholder_base_url_is_cited_at_its_remote_s_own_position() {
    let source = "
app:
  id: x
  name: Reports for Jira
remotes:
  - key: a
    baseUrl: https://a.example.com
  - key: b
    baseUrl: '${URL}'
";
    let flags = check(&facts(source), None);
    assert_eq!(flags.len(), 1);
    assert_eq!(flags[0].id, "remote.base_url_interpolated");
    assert_eq!(flags[0].severity, ReviewSignal::Info);
    assert_eq!(flags[0].evidence.len(), 1);
    assert_eq!(flags[0].evidence[0].pointer, "remotes[1].baseUrl");
    assert_eq!(flags[0].evidence[0].value, "${URL}");
}

#[test]
fn lowered_word_matching_respects_word_boundaries() {
    assert!(starts_with_word_lowered("jira app x", "jira"));
    assert!(starts_with_word_lowered("jira", "jira"));
    assert!(!starts_with_word_lowered("jiraffe tracker", "jira"));
    assert!(!starts_with_word_lowered("my jira app", "jira"));
    // Already-lowered text is compared as it stands.
    assert!(!starts_with_word_lowered("Jira app", "jira"));

    assert!(contains_word_lowered("sync for jira cloud", "jira"));
    assert!(contains_word_lowered("a-jira-b", "jira"));
    assert!(!contains_word_lowered("jiraffe and jirafe", "jira"));
    assert!(contains_word_lowered("jiraffe jira", "jira"));
    assert!(!contains_word_lowered("short", "longer needle"));

    assert!(ends_with_qualifier_lowered("time tracker for jira", "jira"));
    assert!(!ends_with_qualifier_lowered("jira time tracker", "jira"));
    assert!(!ends_with_qualifier_lowered("time tracker for Jira", "jira"));
}

#[test]
fn word_matching_ignores_case_through_the_lowered_forms() {
    assert!(starts_with_word("JIRA App", "jira"));
    assert!(contains_word("Sync for CONFLUENCE", "Confluence"));
    assert!(!contains_word("Confluencer", "Confluence"));
    assert!(ends_with_qualifier("Time Tracker For JIRA", "Jira"));
    assert!(!ends_with_qualifier("Time Tracker for Jira Cloud", "Jira"));
}
