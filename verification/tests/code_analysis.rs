use forge_approval_template::code_analysis::{CodeAnalysis, Checker, Verdict};

#[test]
fn classifies_hashed_check_names_by_prefix() {
    assert_eq!(
        Checker::from_check_name("Custom-Check-Authorization-1234567890"),
        Checker::Authorization
    );
    assert_eq!(
        Checker::from_check_name("Custom-Check-Authentication-987"),
        Checker::Authentication
    );
    assert_eq!(
        Checker::from_check_name("Custom-Check-Hardcoded-Secret-42"),
        Checker::HardcodedSecret
    );
    // The OAuth provider variant extends the plain secret prefix.
    assert_eq!(
        Checker::from_check_name("Custom-Check-Hardcoded-Secret-OAuth-Provider-42"),
        Checker::HardcodedSecret
    );
}

#[test]
fn classifies_fixed_check_names() {
    assert_eq!(
        Checker::from_check_name("ATLASSIAN_API_TOKEN"),
        Checker::AtlassianCredential
    );
    assert_eq!(
        Checker::from_check_name("ATLASSIAN_CONTAINER_TOKEN"),
        Checker::AtlassianCredential
    );
    assert_eq!(
        Checker::from_check_name("Least-Privilege"),
        Checker::LeastPrivilege
    );
    assert_eq!(
        Checker::from_check_name("Forge Runtime Version Policy Checker"),
        Checker::RuntimeVersion
    );
}

#[test]
fn unrecognised_checkers_are_preserved_not_dropped() {
    assert_eq!(
        Checker::from_check_name("Some-New-Checker-7"),
        Checker::Other("Some-New-Checker-7".to_string())
    );
}

#[test]
fn verdict_distinguishes_not_run_from_clean() {
    let empty = CodeAnalysis::default();
    assert_eq!(empty.verdict(&Checker::Authentication), Verdict::NotRun);

    let ran_clean = CodeAnalysis::new(vec![Checker::Authentication], Vec::new());
    assert_eq!(ran_clean.verdict(&Checker::Authentication), Verdict::Clean);
    // A different checker still did not run.
    assert_eq!(
        ran_clean.verdict(&Checker::HardcodedSecret),
        Verdict::NotRun
    );

    let found = CodeAnalysis::from_findings(
        vec![Checker::Authentication],
        vec![(
            "Custom-Check-Authentication-1".to_string(),
            "Insufficient Authentication through webhook run in \"src/index.js\".".to_string(),
        )],
    );
    assert_eq!(found.verdict(&Checker::Authentication), Verdict::Found);
}

#[test]
fn findings_are_grouped_by_checker() {
    let analysis = CodeAnalysis::from_findings(
        vec![Checker::Authorization, Checker::HardcodedSecret],
        vec![
            ("Custom-Check-Authorization-1".to_string(), "bypass one".to_string()),
            ("Custom-Check-Authorization-2".to_string(), "bypass two".to_string()),
            ("Custom-Check-Hardcoded-Secret-3".to_string(), "a secret".to_string()),
        ],
    );
    assert_eq!(analysis.findings_by(&Checker::Authorization).len(), 2);
    assert_eq!(analysis.findings_by(&Checker::HardcodedSecret).len(), 1);
    assert_eq!(analysis.findings_by(&Checker::LeastPrivilege).len(), 0);
}

// ---------------------------------------------------------------------------
// Further cases
// ---------------------------------------------------------------------------

#[test]
fn a_finding_decides_the_verdict_even_when_not_reported_as_run() {
    // A finding is evidence the checker ran, whatever the list of run checkers says.
    let analysis = CodeAnalysis::from_findings(
        Vec::new(),
        vec![("Least-Privilege".to_string(), "too many scopes".to_string())],
    );
    assert_eq!(analysis.verdict(&Checker::LeastPrivilege), Verdict::Found);
    assert_eq!(analysis.verdict(&Checker::Authorization), Verdict::NotRun);
}

#[test]
fn checker_display_names_the_concern() {
    assert_eq!(Checker::Authorization.display(), "authorization scanner");
    assert_eq!(Checker::Other("X".to_string()).display(), "X");
}

#[test]
fn checkers_that_ran_are_kept_as_a_set() {
    let analysis = CodeAnalysis::new(
        vec![
            Checker::Other("b".to_string()),
            Checker::HardcodedSecret,
            Checker::Authorization,
            Checker::HardcodedSecret,
            Checker::Other("a".to_string()),
        ],
        Vec::new(),
    );
    assert_eq!(
        analysis.checkers_run,
        vec![
            Checker::Authorization,
            Checker::HardcodedSecret,
            Checker::Other("a".to_string()),
            Checker::Other("b".to_string()),
        ]
    );
}
