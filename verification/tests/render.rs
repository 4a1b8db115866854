use forge_approval_template::report::ApprovalTemplate;
use forge_approval_template::render::{answer_cell, basis_label, signal_cell, to_markdown};
use forge_approval_template::evidence::Basis;
use forge_approval_template::text::escape_pipes;

/// The manifest of the deliberately vulnerable Jira test app.
const VULNERABLE_APP: &str = r#"
modules:
  jira:globalPage:
    - key: dvfa-global-page
      resource: main
      resolver:
        function: resolver
      title: DVFA global page
      displayConditions:
        isAdmin: true
  jira:issuePanel:
    - key: dvfa-issue-panel
      resource: main
      resolver:
        function: resolver
      title: DVFA issue panel
      displayConditions:
        isAdmin: true
  jira:projectPage:
    - key: dvfa-project-page
      resource: main
      resolver:
        function: resolver
      title: DVFA project page
      displayConditions:
        isAdmin: true
  jira:projectSettingsPage:
    - key: dvfa-project-settings-page
      resource: main
      resolver:
        function: resolver
      title: DVFA project settings
      displayConditions:
        isAdmin: true
  jira:dashboardGadget:
    - key: dvfa-dashboard-gadget
      resource: main
      resolver:
        function: resolver
      title: DVFA gadget
      description: A dashboard gadget
      displayConditions:
        isAdmin: true
  webtrigger:
    - key: authenticated-webtrigger
      function: webtrigger-handler
  function:
    - key: resolver
      handler: index.handler
    - key: webtrigger-handler
      handler: index.webtrigger
resources:
  - key: main
    path: static/hello-world/build
remotes:
  - key: remote-ssot-micros
    baseUrl: "${REMOTE_URL}"
    operations:
      - compute
    auth:
      appSystemToken:
        enabled: true
app:
  runtime:
    name: nodejs18.x
  id: ari:cloud:ecosystem::app/22948e9c-8414-4d24-bd45-f0dc7428608f
permissions:
  scopes:
    - read:user:jira
    - read:jira-work
  external:
    fetch:
      client:
        - '*'
  content:
    styles:
      - 'unsafe-inline'
"#;

fn markdown() -> String {
    let template =
        ApprovalTemplate::from_manifest(VULNERABLE_APP, "manifest.yml".to_string()).expect("parses");
    to_markdown(&template)
}

#[test]
fn renders_all_sections() {
    let markdown = markdown();
    for heading in [
        "# Marketplace app approval",
        "## Before you submit",
        "## Coverage",
        "## Listing details",
        "## Security questionnaire",
        "### Authentication & Authorization",
        "### Vulnerability Management",
    ] {
        assert!(markdown.contains(heading), "missing {heading}");
    }
}

#[test]
fn surfaces_evidence_pointers() {
    assert!(markdown().contains("`permissions.external.fetch.client[0]` = `*`"));
}

#[test]
fn marks_inferred_answers_for_confirmation() {
    // Q1 is inferred, so its cell must say so.
    assert!(markdown().contains("Yes (confirm)"));
}

#[test]
fn always_carries_the_attestation_caveat() {
    assert!(markdown().contains("draft, not an attestation"));
}

#[test]
fn escapes_pipes_so_tables_survive() {
    assert_eq!(escape_pipes("a|b"), "a\\|b");
}

#[test]
fn every_question_appears_exactly_once() {
    let markdown = markdown();
    for id in ["1", "6a", "12a-i", "17"] {
        let occurrences = markdown
            .lines()
            .filter(|line| line.starts_with(&format!("| {id} | ")))
            .count();
        assert_eq!(occurrences, 1, "question {id} appears {occurrences} times");
    }
}

// ---------------------------------------------------------------------------
// Further cases
// ---------------------------------------------------------------------------

#[test]
fn the_report_opens_with_its_provenance() {
    let markdown = markdown();
    assert!(markdown.starts_with(
        "# Marketplace app approval \u{2014} pre-filled submission\n\nGenerated from `manifest.yml`. \
         Questionnaire transcribed from https://developer.atlassian.com/platform/marketplace/app-security-questionnaires/.\n\n> "
    ));
}

#[test]
fn the_coverage_table_counts_every_disposition() {
    let template =
        ApprovalTemplate::from_manifest(VULNERABLE_APP, "manifest.yml".to_string()).expect("parses");
    let markdown = to_markdown(&template);
    let c = template.coverage;
    assert!(markdown.contains(&format!("| Read from the manifest | {} |\n", c.deterministic)));
    assert!(markdown.contains(&format!("| **Total prompts** | **{}** |\n", c.total_prompts)));
    assert!(markdown.contains("% resolved** ("));
    assert!(markdown.contains(" warning signal(s) tripped by the pre-filled answers.\n\n"));
}

#[test]
fn cells_say_what_needs_doing() {
    let template =
        ApprovalTemplate::from_manifest(VULNERABLE_APP, "manifest.yml".to_string()).expect("parses");
    let q1 = template.questionnaire.iter().find(|a| a.id == "1").unwrap();
    assert_eq!(answer_cell(q1), "Yes (confirm)");
    assert_eq!(signal_cell(q1), "\u{2014}");
    let q6a = template.questionnaire.iter().find(|a| a.id == "6a").unwrap();
    assert_eq!(answer_cell(q6a), "Yes");
    assert_eq!(signal_cell(q6a), "warning");
    assert_eq!(basis_label(Basis::Heuristic), "inferred from manifest");
}

#[test]
fn every_published_question_has_exactly_one_row() {
    let template =
        ApprovalTemplate::from_manifest(VULNERABLE_APP, "manifest.yml".to_string()).expect("parses");
    let markdown = to_markdown(&template);
    for answer in &template.questionnaire {
        let key = format!("| {} | ", answer.id);
        let rows = markdown.lines().filter(|line| line.starts_with(&key)).count();
        assert_eq!(rows, 1, "question {} has {rows} rows", answer.id);
    }
    // An id that is not a question's has none.
    assert_eq!(markdown.lines().filter(|line| line.starts_with("| 99 | ")).count(), 0);
}
