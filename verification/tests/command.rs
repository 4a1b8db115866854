use forge_approval_template::code_analysis::{Checker, Verdict};
use forge_approval_template::command::{analysis_from_scan, blocking_outcome, inferred_checkers, Format};
use forge_approval_template::facts::ManifestFacts;

fn facts(source: &str) -> ManifestFacts {
    ManifestFacts::from_yaml(source).expect("manifest should parse")
}

#[test]
fn formats_are_described_for_the_written_file() {
    assert_eq!(Format::Markdown.describe(), "Markdown summary");
    assert_eq!(Format::Json.describe(), "JSON template");
    assert_eq!(Format::Yaml.describe(), "YAML template");
}

#[test]
fn a_scan_counts_only_the_checkers_the_manifest_gives_work_to() {
    let plumbing = facts("app:\n  id: x\nmodules:\n  function:\n    - key: f\n");
    assert_eq!(
        inferred_checkers(&plumbing),
        vec![Checker::HardcodedSecret, Checker::AtlassianCredential]
    );
    let full = facts(
        "app:\n  id: x\nmodules:\n  jira:issuePanel:\n    - key: p\n  webtrigger:\n    - key: w\n",
    );
    assert_eq!(
        inferred_checkers(&full),
        vec![
            Checker::Authorization,
            Checker::Authentication,
            Checker::HardcodedSecret,
            Checker::AtlassianCredential
        ]
    );
}

#[test]
fn scan_findings_are_honoured_even_for_checkers_not_counted() {
    let plumbing = facts("app:\n  id: x\n");
    let analysis = analysis_from_scan(
        &plumbing,
        vec![("Least-Privilege".to_string(), "unused scope".to_string())],
    );
    assert_eq!(analysis.verdict(&Checker::LeastPrivilege), Verdict::Found);
    assert_eq!(analysis.verdict(&Checker::HardcodedSecret), Verdict::Clean);
    assert_eq!(analysis.verdict(&Checker::Authorization), Verdict::NotRun);
}

#[test]
fn blocking_checks_fail_the_run_only_when_asked() {
    let none = blocking_outcome(0, true);
    assert_eq!(none.notice, None);
    assert_eq!(none.failure, None);

    let warned = blocking_outcome(2, false);
    assert_eq!(
        warned.notice.as_deref(),
        Some("\n2 check(s) would block listing. Resolve them before submitting.")
    );
    assert_eq!(warned.failure, None);

    let failed = blocking_outcome(1, true);
    assert_eq!(failed.failure.as_deref(), Some("1 blocking check(s) found"));
}
