use forge_approval_template::evidence::Basis;
use forge_approval_template::facts::ManifestFacts;
use forge_approval_template::listing::{build, ListingField, Value};

/// The manifest of the deliberately vulnerable Jira test app.
const VULNERABLE_APP: &str = r#"
modules:
  jira:globalPage:
    - key: dvfa-global-page
      resource: main
      resolver:
        function: resolver
      title: DVFA global page
      displayConditions:
        isAdmin: true
  jira:issuePanel:
    - key: dvfa-issue-panel
      resource: main
      resolver:
        function: resolver
      title: DVFA issue panel
      displayConditions:
        isAdmin: true
  jira:projectPage:
    - key: dvfa-project-page
      resource: main
      resolver:
        function: resolver
      title: DVFA project page
      displayConditions:
        isAdmin: true
  jira:projectSettingsPage:
    - key: dvfa-project-settings-page
      resource: main
      resolver:
        function: resolver
      title: DVFA project settings
      displayConditions:
        isAdmin: true
  jira:dashboardGadget:
    - key: dvfa-dashboard-gadget
      resource: main
      resolver:
        function: resolver
      title: DVFA gadget
      description: A dashboard gadget
      displayConditions:
        isAdmin: true
  webtrigger:
    - key: authenticated-webtrigger
      function: webtrigger-handler
  function:
    - key: resolver
      handler: index.handler
    - key: webtrigger-handler
      handler: index.webtrigger
resources:
  - key: main
    path: static/hello-world/build
remotes:
  - key: remote-ssot-micros
    baseUrl: "${REMOTE_URL}"
    operations:
      - compute
    auth:
      appSystemToken:
        enabled: true
app:
  runtime:
    name: nodejs18.x
  id: ari:cloud:ecosystem::app/22948e9c-8414-4d24-bd45-f0dc7428608f
permissions:
  scopes:
    - read:user:jira
    - read:jira-work
  external:
    fetch:
      client:
        - '*'
  content:
    styles:
      - 'unsafe-inline'
"#;

fn fields() -> Vec<ListingField> {
    build(&ManifestFacts::from_yaml(VULNERABLE_APP).expect("parses"))
}

fn field(name: &str) -> ListingField {
    fields()
        .into_iter()
        .find(|field| field.name == name)
        .unwrap_or_else(|| panic!("no listing field named {name}"))
}

#[test]
fn app_id_is_read_from_the_manifest() {
    let app_id = field("App ID");
    assert_eq!(app_id.basis, Basis::Deterministic);
    assert_eq!(
        app_id.value,
        Some(Value::Text(
            "ari:cloud:ecosystem::app/22948e9c-8414-4d24-bd45-f0dc7428608f".to_string()
        ))
    );
}

#[test]
fn a_missing_app_name_becomes_an_outstanding_field() {
    let name = field("App name");
    assert!(name.is_outstanding());
    assert_eq!(name.basis, Basis::RequiresPartnerInput);
    assert!(name.required_by.is_some());
}

#[test]
fn host_products_are_marked_as_inferred_not_read() {
    let products = field("Host products");
    assert_eq!(products.basis, Basis::Heuristic);
    assert_eq!(products.value, Some(Value::List(vec!["Jira".to_string()])));
}

#[test]
fn every_outstanding_field_cites_a_criterion() {
    for field in fields().iter().filter(|field| field.is_outstanding()) {
        assert!(
            field.required_by.is_some(),
            "{} is outstanding but cites no criterion",
            field.name
        );
    }
}

#[test]
fn deployment_model_is_settled_by_the_artefact() {
    let model = field("Deployment model");
    assert_eq!(model.basis, Basis::Deterministic);
    assert_eq!(model.value, Some(Value::Text("Cloud (Forge)".to_string())));
}

#[test]
fn empty_lists_render_readably() {
    assert_eq!(Value::List(vec![]).as_display(), "(none)");
    assert_eq!(
        Value::List(vec!["a".to_string(), "b".to_string()]).as_display(),
        "a, b"
    );
}

// ---------------------------------------------------------------------------
// Further cases
// ---------------------------------------------------------------------------

#[test]
fn remotes_are_listed_with_their_base_url() {
    let remotes = field("Forge remotes");
    assert_eq!(
        remotes.value,
        Some(Value::List(vec!["remote-ssot-micros (${REMOTE_URL})".to_string()]))
    );
    let runtime = field("Forge runtime");
    assert_eq!(runtime.value, Some(Value::Text("nodejs18.x".to_string())));
    assert_eq!(runtime.evidence[0].pointer, "app.runtime.name");
}

#[test]
fn host_product_evidence_cites_each_module_type() {
    let products = field("Host products");
    assert_eq!(products.evidence.len(), 7);
    assert_eq!(products.evidence[0].pointer, "modules.jira:globalPage");
    assert_eq!(products.evidence[0].value, "jira:globalPage");
}

#[test]
fn the_listing_ends_with_the_fields_no_artefact_supplies() {
    let all = fields();
    let outstanding: Vec<&str> = all.iter().filter(|f| f.is_outstanding()).map(|f| f.name).collect();
    assert_eq!(outstanding.len(), 12);
    assert_eq!(outstanding[0], "App name");
    assert_eq!(all.last().unwrap().name, "Marketplace Partner Agreement accepted");
}
