use forge_approval_template::text::{is_white_space_char, trimmed};
use forge_approval_template::facts::{
    classify_egress, EgressEntry, EgressPattern, HostProduct, ManifestFacts, ScopeVerb,
};

/// The manifest of the deliberately vulnerable Jira test app.
const VULNERABLE_APP: &str = r#"
modules:
  jira:globalPage:
    - key: dvfa-global-page
      resource: main
      resolver:
        function: resolver
      title: DVFA global page
      displayConditions:
        isAdmin: true
  jira:issuePanel:
    - key: dvfa-issue-panel
      resource: main
      resolver:
        function: resolver
      title: DVFA issue panel
      displayConditions:
        isAdmin: true
  jira:projectPage:
    - key: dvfa-project-page
      resource: main
      resolver:
        function: resolver
      title: DVFA project page
      displayConditions:
        isAdmin: true
  jira:projectSettingsPage:
    - key: dvfa-project-settings-page
      resource: main
      resolver:
        function: resolver
      title: DVFA project settings
      displayConditions:
        isAdmin: true
  jira:dashboardGadget:
    - key: dvfa-dashboard-gadget
      resource: main
      resolver:
        function: resolver
      title: DVFA gadget
      description: A dashboard gadget
      displayConditions:
        isAdmin: true
  webtrigger:
    - key: authenticated-webtrigger
      function: webtrigger-handler
  function:
    - key: resolver
      handler: index.handler
    - key: webtrigger-handler
      handler: index.webtrigger
resources:
  - key: main
    path: static/hello-world/build
remotes:
  - key: remote-ssot-micros
    baseUrl: "${REMOTE_URL}"
    operations:
      - compute
    auth:
      appSystemToken:
        enabled: true
app:
  runtime:
    name: nodejs18.x
  id: ari:cloud:ecosystem::app/22948e9c-8414-4d24-bd45-f0dc7428608f
permissions:
  scopes:
    - read:user:jira
    - read:jira-work
  external:
    fetch:
      client:
        - '*'
  content:
    styles:
      - 'unsafe-inline'
"#;

/// The manifest of the basic Confluence test app.
const BASIC_APP: &str = r#"
modules:
  macro:
    - key: basic-hello-world
      function: main
      title: basic
      description: Inserts Hello world!
  function:
    - key: main
      handler: index.run
app:
  id: ari:cloud:ecosystem::app/00000000-0000-0000-0000-000000000001
"#;

fn read(source: &str) -> ManifestFacts {
    ManifestFacts::from_yaml(source).expect("manifest should parse")
}

#[test]
fn reads_app_identity() {
    let facts = read(VULNERABLE_APP);
    assert_eq!(
        facts.app_id.as_deref(),
        Some("ari:cloud:ecosystem::app/22948e9c-8414-4d24-bd45-f0dc7428608f")
    );
    // This manifest declares no `app.name`, which the listing section must
    // then ask the partner for.
    assert_eq!(facts.app_name, None);
}

#[test]
fn infers_host_product_from_module_prefixes() {
    assert_eq!(read(VULNERABLE_APP).host_products, vec![HostProduct::Jira]);
    // `macro` is a Confluence module spelled without a prefix.
    assert_eq!(read(BASIC_APP).host_products, vec![HostProduct::Confluence]);
}

#[test]
fn product_agnostic_modules_imply_no_host() {
    assert_eq!(HostProduct::from_module_type("function"), None);
    assert_eq!(HostProduct::from_module_type("webtrigger"), None);
    assert_eq!(
        HostProduct::from_module_type("jira:issuePanel"),
        Some(HostProduct::Jira)
    );
    assert_eq!(
        HostProduct::from_module_type("jiraServiceManagement:portalHeader"),
        Some(HostProduct::JiraServiceManagement)
    );
    // Forward compatibility: an unknown prefix is reported, not dropped.
    assert_eq!(
        HostProduct::from_module_type("newproduct:page"),
        Some(HostProduct::Other("newproduct".to_string()))
    );
}

#[test]
fn finds_webtriggers() {
    let facts = read(VULNERABLE_APP);
    assert_eq!(facts.webtriggers.len(), 1);
    assert_eq!(facts.webtriggers[0].value, "authenticated-webtrigger");
    assert_eq!(facts.webtriggers[0].pointer, "modules.webtrigger[0].key");
    assert!(read(BASIC_APP).webtriggers.is_empty());
}

#[test]
fn finds_display_conditions_at_any_depth() {
    let facts = read(VULNERABLE_APP);
    // Five modules in this manifest carry `displayConditions`: globalPage,
    // issuePanel, projectPage, projectSettingsPage and dashboardGadget.
    assert_eq!(facts.display_conditions.len(), 5);
    assert!(
        facts
            .display_conditions
            .iter()
            .all(|condition| condition.value == "isAdmin: true")
    );
    assert_eq!(
        facts.display_conditions[0].pointer,
        "modules.jira:globalPage[0].displayConditions"
    );
    assert!(read(BASIC_APP).display_conditions.is_empty());
}

#[test]
fn reads_remote_auth_and_base_url() {
    let facts = read(VULNERABLE_APP);
    assert_eq!(facts.remotes.len(), 1);
    let remote = &facts.remotes[0];
    assert_eq!(remote.key, "remote-ssot-micros");
    assert_eq!(remote.base_url.as_deref(), Some("${REMOTE_URL}"));
    assert!(remote.base_url_is_interpolated);
    assert!(remote.declares_auth);
    assert!(remote.passes_system_token);
    assert!(!remote.passes_user_token);
    assert!(remote.forwards_a_token());
    assert_eq!(remote.operations, vec!["compute".to_string()]);
}

#[test]
fn reads_external_egress_that_the_typed_model_drops() {
    let facts = read(VULNERABLE_APP);
    assert_eq!(facts.external_egress.len(), 1);
    let entry = &facts.external_egress[0];
    assert_eq!(entry.value, "*");
    assert_eq!(entry.pointer, "permissions.external.fetch.client[0]");
    assert_eq!(entry.pattern, EgressPattern::AnyHost);
    assert!(entry.is_overly_broad());
    assert!(facts.egresses_data());
}

#[test]
fn classifies_egress_patterns() {
    assert_eq!(classify_egress("*"), EgressPattern::AnyHost);
    assert_eq!(classify_egress("*.com"), EgressPattern::WildcardTopLevel);
    assert_eq!(classify_egress("*.io"), EgressPattern::WildcardTopLevel);
    assert_eq!(
        classify_egress("*.example.com"),
        EgressPattern::WildcardScoped
    );
    assert_eq!(classify_egress("api.example.com"), EgressPattern::Fixed);
    assert_eq!(
        classify_egress("https://api.example.com/v1"),
        EgressPattern::Fixed
    );
    // A wildcard TLD is still a wildcard TLD when spelled as a URL.
    assert_eq!(
        classify_egress("https://*.com/path"),
        EgressPattern::WildcardTopLevel
    );
    assert_eq!(
        classify_egress("${REMOTE_URL}"),
        EgressPattern::Interpolated
    );
}

#[test]
fn detects_cleartext_egress() {
    let entry = EgressEntry::new("p".to_string(), "http://api.example.com".to_string());
    assert_eq!(entry.scheme.as_deref(), Some("http"));
    assert!(entry.is_cleartext());
    assert!(!EgressEntry::new("p".to_string(), "https://api.example.com".to_string()).is_cleartext());
    // A bare domain names no transport, so it is not evidence of cleartext.
    assert!(!EgressEntry::new("p".to_string(), "api.example.com".to_string()).is_cleartext());
}

#[test]
fn finds_content_security_relaxations() {
    let facts = read(VULNERABLE_APP);
    assert_eq!(facts.content_security_relaxations.len(), 1);
    assert_eq!(facts.content_security_relaxations[0].value, "unsafe-inline");
    assert_eq!(
        facts.content_security_relaxations[0].pointer,
        "permissions.content.styles[0]"
    );
}

#[test]
fn classifies_scope_verbs() {
    let facts = read(VULNERABLE_APP);
    assert_eq!(
        facts
            .scopes
            .iter()
            .map(|s| s.raw.as_str())
            .collect::<Vec<_>>(),
        vec!["read:user:jira", "read:jira-work"]
    );
    assert!(facts.scopes.iter().all(|s| s.verb == ScopeVerb::Read));
    assert_eq!(facts.elevated_scopes().len(), 0);

    assert_eq!(
        ScopeVerb::parse("manage:jira-configuration"),
        ScopeVerb::Manage
    );
    assert_eq!(ScopeVerb::parse("delete:issue:jira"), ScopeVerb::Delete);
    assert_eq!(ScopeVerb::parse("storage:app"), ScopeVerb::Other);
    assert!(ScopeVerb::Manage.is_elevated());
    assert!(!ScopeVerb::Read.is_elevated());
}

#[test]
fn scopes_written_as_a_mapping_are_still_read() {
    let source = "
app:
  id: ari:cloud:ecosystem::app/00000000-0000-0000-0000-000000000000
modules:
  macro:
    - key: m
      function: main
permissions:
  scopes:
    read:jira-work:
    write:jira-work:
";
    let facts = read(source);
    assert_eq!(facts.scopes.len(), 2);
    assert_eq!(facts.elevated_scopes().len(), 1);
}

#[test]
fn app_with_no_egress_reports_none() {
    let facts = read(BASIC_APP);
    assert!(!facts.egresses_data());
    assert!(facts.external_egress.is_empty());
    assert!(facts.remotes.is_empty());
    assert!(facts.scopes.is_empty());
}

#[test]
fn user_facing_modules_exclude_plumbing() {
    let facts = read(VULNERABLE_APP);
    assert!(
        facts
            .declared_module_types
            .contains(&"function".to_string())
    );
    assert!(
        !facts
            .user_facing_module_types
            .contains(&"function".to_string())
    );
    assert!(
        !facts
            .user_facing_module_types
            .contains(&"webtrigger".to_string())
    );
    assert!(
        facts
            .user_facing_module_types
            .contains(&"jira:issuePanel".to_string())
    );
}

#[test]
fn oauth_providers_are_read() {
    let source = "
app:
  id: ari:cloud:ecosystem::app/00000000-0000-0000-0000-000000000000
modules:
  macro:
    - key: m
      function: main
providers:
  auth:
    - key: github
      actions: {}
";
    assert_eq!(read(source).oauth_providers, vec!["github".to_string()]);
}

#[test]
fn malformed_yaml_is_an_error_not_a_panic() {
    let error = ManifestFacts::from_yaml("app: [this is not a mapping").unwrap_err();
    assert!(error.message().contains("could not parse manifest"));
}

// ---------------------------------------------------------------------------
// Further cases
// ---------------------------------------------------------------------------

#[test]
fn a_manifest_without_an_app_id_is_an_error() {
    let error = ManifestFacts::from_yaml("modules:\n  macro: []\n").unwrap_err();
    assert_eq!(error.message(), "could not parse manifest: app: missing field `id`");
}

#[test]
fn host_products_are_sorted_and_distinct() {
    let source = "
app:
  id: x
modules:
  rovo:agent: []
  confluence:globalPage: []
  newproduct:page: []
  jira:issuePanel: []
  jira:globalPage: []
  another:page: []
  function: []
";
    assert_eq!(
        read(source).host_products,
        vec![
            HostProduct::Jira,
            HostProduct::Confluence,
            HostProduct::Rovo,
            HostProduct::Other("another".to_string()),
            HostProduct::Other("newproduct".to_string()),
        ]
    );
}

#[test]
fn repeated_egress_leaves_are_kept_once_and_inspector_is_skipped() {
    let source = "
app:
  id: x
permissions:
  external:
    fetch:
      backend:
        - 'https://a.example.com'
        - '  '
        - 'http://b.example.com'
    inspector:
      - 'https://inspect.example.com'
";
    let facts = read(source);
    let values: Vec<&str> = facts.external_egress.iter().map(|e| e.value.as_str()).collect();
    assert_eq!(values, vec!["https://a.example.com", "http://b.example.com"]);
    assert_eq!(facts.external_egress[1].pointer, "permissions.external.fetch.backend[2]");
    assert_eq!(facts.cleartext_egress(), vec![1]);
    assert!(facts.overly_broad_egress().is_empty());
}

#[test]
fn app_name_and_runtime_are_trimmed() {
    let source = "
app:
  id: ' x '
  name: '  Reports  '
  runtime:
    name: nodejs20.x
";
    let facts = read(source);
    assert_eq!(facts.app_id.as_deref(), Some("x"));
    assert_eq!(facts.app_name.as_deref(), Some("Reports"));
    assert_eq!(facts.runtime.as_deref(), Some("nodejs20.x"));
}

#[test]
fn trimming_removes_unicode_white_space_only() {
    let source = "app:\n  id: x\n  name: \"\\u3000\\u00A0Reports\\u200B\\t\"\n";
    let facts = read(source);
    // Ideographic and no-break spaces and the tab are white space; the
    // zero-width space is not.
    assert_eq!(facts.app_name.as_deref(), Some("Reports\u{200B}"));
}

#[test]
fn trimming_agrees_with_std() {
    for text in ["", "   ", " a b ", "\u{2028}x\u{85}", "\u{200B} y", "tab\t", "\u{3000}"] {
        assert_eq!(trimmed(text), text.trim(), "{text:?}");
    }
    assert!(is_white_space_char('\u{1680}'));
    assert!(!is_white_space_char('\u{200B}'));
    assert!(!is_white_space_char('x'));
}
