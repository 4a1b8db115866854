use forge_approval_template::answers::AnsweredQuestion;
use forge_approval_template::code_analysis::{Checker, CodeAnalysis};
use forge_approval_template::evidence::Basis;
use forge_approval_template::questionnaire::{AnswerValue, ReviewSignal};
use forge_approval_template::report::{percent_text, percentage_tenths, ApprovalTemplate, Coverage};

/// The manifest of the deliberately vulnerable Jira test app.
const VULNERABLE_APP: &str = r#"
modules:
  jira:globalPage:
    - key: dvfa-global-page
      resource: main
      resolver:
        function: resolver
      title: DVFA global page
      displayConditions:
        isAdmin: true
  jira:issuePanel:
    - key: dvfa-issue-panel
      resource: main
      resolver:
        function: resolver
      title: DVFA issue panel
      displayConditions:
        isAdmin: true
  jira:projectPage:
    - key: dvfa-project-page
      resource: main
      resolver:
        function: resolver
      title: DVFA project page
      displayConditions:
        isAdmin: true
  jira:projectSettingsPage:
    - key: dvfa-project-settings-page
      resource: main
      resolver:
        function: resolver
      title: DVFA project settings
      displayConditions:
        isAdmin: true
  jira:dashboardGadget:
    - key: dvfa-dashboard-gadget
      resource: main
      resolver:
        function: resolver
      title: DVFA gadget
      description: A dashboard gadget
      displayConditions:
        isAdmin: true
  webtrigger:
    - key: authenticated-webtrigger
      function: webtrigger-handler
  function:
    - key: resolver
      handler: index.handler
    - key: webtrigger-handler
      handler: index.webtrigger
resources:
  - key: main
    path: static/hello-world/build
remotes:
  - key: remote-ssot-micros
    baseUrl: "${REMOTE_URL}"
    operations:
      - compute
    auth:
      appSystemToken:
        enabled: true
app:
  runtime:
    name: nodejs18.x
  id: ari:cloud:ecosystem::app/22948e9c-8414-4d24-bd45-f0dc7428608f
permissions:
  scopes:
    - read:user:jira
    - read:jira-work
  external:
    fetch:
      client:
        - '*'
  content:
    styles:
      - 'unsafe-inline'
"#;

/// The manifest of the basic Confluence test app.
const BASIC_APP: &str = r#"
modules:
  macro:
    - key: basic-hello-world
      function: main
      title: basic
      description: Inserts Hello world!
  function:
    - key: main
      handler: index.run
app:
  id: ari:cloud:ecosystem::app/00000000-0000-0000-0000-000000000001
"#;

fn template(source: &str) -> ApprovalTemplate {
    ApprovalTemplate::from_manifest(source, "manifest.yml".to_string()).expect("parses")
}

fn answer(template: &ApprovalTemplate, id: &str) -> AnsweredQuestion {
    template
        .questionnaire
        .iter()
        .find(|a| a.id == id)
        .cloned()
        .unwrap_or_else(|| panic!("no question {id}"))
}

/// A share in tenths of a percent, as a percentage.
fn as_percent(tenths: usize) -> f64 {
    tenths as f64 / 10.0
}

#[test]
fn every_prompt_is_accounted_for() {
    let template = template(VULNERABLE_APP);
    assert_eq!(template.questionnaire.len(), 31);
    assert_eq!(template.coverage.total_prompts, 31);

    // The four dispositions partition the questionnaire exactly.
    let coverage = template.coverage;
    assert_eq!(
        coverage.prefilled
            + coverage.not_applicable
            + coverage.requires_code_review
            + coverage.requires_partner_input,
        coverage.total_prompts
    );
}

#[test]
fn declarations_are_answered_deterministically() {
    let template = template(VULNERABLE_APP);
    for (id, expected) in [
        ("2", AnswerValue::Yes),  // declares a remote
        ("4", AnswerValue::Yes),  // declares a webtrigger
        ("5", AnswerValue::Yes),  // declares displayConditions
        ("6", AnswerValue::Yes),  // declares egress
        ("6a", AnswerValue::Yes), // egress is `*`
    ] {
        let answer = answer(&template, id);
        assert_eq!(answer.answer, expected, "question {id}");
        assert_eq!(answer.basis, Basis::Deterministic, "question {id}");
        assert!(!answer.confirm_before_submitting, "question {id}");
        assert!(!answer.evidence.is_empty(), "question {id} cites nothing");
    }
}

#[test]
fn wildcard_egress_trips_the_documented_warning() {
    let answer = answer(&template(VULNERABLE_APP), "6a");
    assert_eq!(answer.signal, ReviewSignal::Warning);
    assert!(answer.trips_signal);
    assert_eq!(
        answer.evidence[0].pointer,
        "permissions.external.fetch.client[0]"
    );
}

#[test]
fn code_behaviour_is_never_guessed() {
    let template = template(VULNERABLE_APP);
    // The questions a scan of the app's source would answer are left open, not assumed.
    for id in ["1a", "3", "4a", "5a", "8", "9", "11", "13"] {
        let answer = answer(&template, id);
        assert_eq!(answer.answer, AnswerValue::Unknown, "question {id}");
        assert_eq!(answer.basis, Basis::RequiresCodeReview, "question {id}");
        assert!(answer.rationale.is_some(), "question {id}");
    }
}

#[test]
fn remote_host_questions_are_left_to_the_partner_with_context() {
    // The remotes[].auth block is not evidence of FIT validation, so 2a must
    // not be answered from it -- but the facts are still offered as context.
    let answer = answer(&template(VULNERABLE_APP), "2a");
    assert_eq!(answer.answer, AnswerValue::Unknown);
    assert_eq!(answer.basis, Basis::RequiresPartnerInput);
    assert!(answer.asked, "the app declares a remote, so 2a is asked");
    assert!(!answer.evidence.is_empty());
    assert!(answer.rationale.as_ref().unwrap().contains("FIT"));
}

#[test]
fn sub_questions_are_dropped_when_the_parent_rules_them_out() {
    let template = template(BASIC_APP);
    // No remote, no webtrigger, no display conditions, no egress.
    for parent in ["2", "4", "5", "6"] {
        assert_eq!(answer(&template, parent).answer, AnswerValue::No);
    }
    for child in ["2a", "2b", "4a", "5a", "6a", "6b", "6c", "6d", "6d-i"] {
        let answer = answer(&template, child);
        assert_eq!(
            answer.answer,
            AnswerValue::NotApplicable,
            "question {child}"
        );
        assert!(!answer.asked, "question {child} should not be asked");
        assert!(!answer.trips_signal, "question {child}");
    }
}

#[test]
fn a_simple_app_resolves_more_of_the_form_than_a_complex_one() {
    // Answering "yes" to a declaration question opens follow-ups that need
    // code review, so richer manifests resolve proportionally less.
    let simple = template(BASIC_APP).coverage;
    let complex = template(VULNERABLE_APP).coverage;
    assert!(
        as_percent(simple.percent_resolved_tenths) > as_percent(complex.percent_resolved_tenths),
        "simple {} should resolve more than complex {}",
        as_percent(simple.percent_resolved_tenths),
        as_percent(complex.percent_resolved_tenths)
    );
}

#[test]
fn coverage_percentage_is_bounded() {
    for source in [VULNERABLE_APP, BASIC_APP] {
        let percent = as_percent(template(source).coverage.percent_resolved_tenths);
        assert!((0.0..=100.0).contains(&percent), "{percent}");
    }
    assert_eq!(percentage_tenths(0, 0) as f64 / 10.0, 0.0);
    assert_eq!(percentage_tenths(1, 3) as f64 / 10.0, 33.3);
    assert_eq!(percentage_tenths(31, 31) as f64 / 10.0, 100.0);
}

#[test]
fn wildcard_egress_is_also_raised_as_a_presubmission_flag() {
    let template = template(VULNERABLE_APP);
    assert!(template.flags.iter().any(|f| f.id == "egress.overly_broad"));
    assert!(
        template
            .flags
            .iter()
            .any(|f| f.id == "content_security.unsafe_directive")
    );
    // Nothing in this manifest is a blocking flag: the egress wildcard is a
    // warning, and there is no cleartext destination.
    assert_eq!(template.blocking_flags().len(), 0);
}

#[test]
fn cleartext_egress_blocks_and_is_answered_no() {
    let source = "
app:
  id: ari:cloud:ecosystem::app/00000000-0000-0000-0000-000000000000
  name: Reporting for Jira
modules:
  macro:
    - key: m
      function: main
permissions:
  external:
    fetch:
      backend:
        - 'http://metrics.example.com'
";
    let template = template(source);
    let answer = answer(&template, "6b");
    assert_eq!(answer.answer, AnswerValue::No);
    assert_eq!(answer.basis, Basis::Deterministic);
    assert!(answer.trips_signal);
    assert_eq!(answer.signal, ReviewSignal::Fail);

    let blocking: Vec<_> = template.blocking_flags().iter().map(|f| f.id).collect();
    assert_eq!(blocking, vec!["egress.cleartext"]);
    assert_eq!(template.coverage.blocking_signals_tripped, 1);
}

#[test]
fn a_trademark_prefixed_name_is_a_blocking_flag() {
    let source = "
app:
  id: ari:cloud:ecosystem::app/00000000-0000-0000-0000-000000000000
  name: Jira Reporting Toolkit
modules:
  macro:
    - key: m
      function: main
";
    let blocking: Vec<_> = template(source)
        .blocking_flags()
        .iter()
        .map(|flag| flag.id)
        .collect();
    assert_eq!(blocking, vec!["naming.trademark_prefix"]);
}

#[test]
fn outstanding_listing_fields_are_reported() {
    let template = template(VULNERABLE_APP);
    let outstanding: Vec<_> = template
        .outstanding_listing_fields()
        .iter()
        .map(|field| field.name)
        .collect();
    assert!(outstanding.contains(&"Privacy policy URL"));
    assert!(outstanding.contains(&"App name"));
}

#[test]
fn only_inferred_answers_are_marked_for_confirmation() {
    let template = template(VULNERABLE_APP);
    for answer in template.needs_confirmation() {
        assert_eq!(answer.basis, Basis::Heuristic, "question {}", answer.id);
    }
}

// ---------------------------------------------------------------------------
// Further cases
// ---------------------------------------------------------------------------

#[test]
fn percentages_round_to_the_nearest_tenth() {
    assert_eq!(percentage_tenths(2, 3), 667);
    assert_eq!(percentage_tenths(1, 8), 125);
    assert_eq!(percentage_tenths(1, 16), 63);
    assert_eq!(percent_text(333), "33.3");
    assert_eq!(percent_text(1000), "100");
    assert_eq!(percent_text(0), "0");
    assert_eq!(percent_text(5), "0.5");
}

#[test]
fn coverage_of_nothing_is_zero() {
    let c = Coverage::measure(&Vec::new());
    assert_eq!(c.total_prompts, 0);
    assert_eq!(c.resolved, 0);
    assert_eq!(c.percent_resolved_tenths, 0);
}

#[test]
fn the_template_records_what_it_was_built_from() {
    let template = template(BASIC_APP);
    assert_eq!(template.schema_version, "1.0");
    assert_eq!(template.manifest_path, "manifest.yml");
    assert!(template.attestation.contains("draft, not an attestation"));
    let c = template.coverage;
    assert_eq!(c.deterministic + c.heuristic, c.resolved);
    assert_eq!(c.prefilled + c.not_applicable, c.resolved);
}

#[test]
fn an_unparseable_manifest_gives_the_parser_error() {
    let error = ApprovalTemplate::from_manifest("app: [", "m.yml".to_string()).unwrap_err();
    assert!(error.message().starts_with("could not parse manifest: "));
    assert!(error.message().len() > "could not parse manifest: ".len());
}

fn scanned_template(code: &CodeAnalysis) -> ApprovalTemplate {
    let facts = forge_approval_template::facts::ManifestFacts::from_yaml(VULNERABLE_APP).expect("parses");
    ApprovalTemplate::build(&facts, Some(code), "manifest.yml".to_string())
}

#[test]
fn a_scan_finding_answers_the_question_the_unfavourable_way() {
    let code = CodeAnalysis::from_findings(
        vec![Checker::Authentication],
        vec![(
            "Custom-Check-Authentication-1".to_string(),
            "Insufficient Authentication through webhook".to_string(),
        )],
    );
    let template = scanned_template(&code);
    let a = answer(&template, "4a");
    assert_eq!(a.answer, AnswerValue::No);
    assert_eq!(a.basis, Basis::Heuristic);
    assert!(a.confirm_before_submitting);
    assert!(a.trips_signal);
    assert!(a.evidence.iter().any(|e| e.pointer == "Custom-Check-Authentication-1"));
    assert!(a.rationale.as_ref().unwrap().starts_with("The authentication scanner reported"));
}

#[test]
fn a_clean_scan_prefills_the_favourable_answer_for_confirmation() {
    let code = CodeAnalysis::new(vec![Checker::HardcodedSecret, Checker::AtlassianCredential], Vec::new());
    let template = scanned_template(&code);
    let secrets = answer(&template, "13");
    assert_eq!(secrets.answer, AnswerValue::No);
    assert_eq!(secrets.basis, Basis::Heuristic);
    assert!(secrets.confirm_before_submitting);
    assert!(!secrets.trips_signal);
    assert!(secrets.rationale.as_ref().unwrap().contains("found nothing"));
    assert_eq!(answer(&template, "11").answer, AnswerValue::No);
    // A checker that did not run yields nothing.
    let auth = answer(&template, "4a");
    assert_eq!(auth.answer, AnswerValue::Unknown);
    assert_eq!(auth.basis, Basis::RequiresCodeReview);
    // A question no checker answers stays open.
    assert_eq!(answer(&template, "8").answer, AnswerValue::Unknown);
}

#[test]
fn no_answer_is_free_text() {
    let template = template(VULNERABLE_APP);
    for a in &template.questionnaire {
        assert!(!matches!(a.answer, AnswerValue::Text(_)), "{} is free text", a.id);
        assert_eq!(a.is_prefilled(), a.basis.is_derived(), "{}", a.id);
    }
}

#[test]
fn resolved_prompts_are_the_prefilled_and_the_ruled_out() {
    let coverage = template(VULNERABLE_APP).coverage;
    assert_eq!(coverage.resolved, coverage.prefilled + coverage.not_applicable);
    assert!(coverage.asked <= coverage.total_prompts);
    assert!(coverage.resolved <= coverage.total_prompts);
}
