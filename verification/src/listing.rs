//! The listing half of the submission.
//!
//! A manifest supplies very little listing metadata, chiefly the app id, the
//! modules and the scopes. The value of enumerating the rest is completeness:
//! fields with no manifest source are included deliberately, without a value
//! and with a citation of the approval criterion that demands them.
use vstd::prelude::*;

use crate::answers::{module_citations, scope_citations, egress_citations};
use crate::evidence::{cite, evidence_views, no_evidence, Basis, Evidence, EvidenceView};
use crate::facts::{host_product_display, ManifestFacts, Remote};
use crate::text::{appended, concat3, join, join_strings, owned};

verus! {

/// A listing field's value.
#[derive(Debug, Clone, PartialEq, Eq)]
pub enum Value {
    Text(String),
    List(Vec<String>),
}

/// The mathematical content of a [`Value`].
pub enum ValueView {
    Text(Seq<char>),
    List(Seq<Seq<char>>),
}

/// The texts of a list of strings.
pub open spec fn texts(v: Seq<String>) -> Seq<Seq<char>> {
    v.map_values(|s: String| s@)
}

impl View for Value {
    type V = ValueView;

    open spec fn view(&self) -> ValueView {
        match self {
            Value::Text(t) => ValueView::Text(t@),
            Value::List(items) => ValueView::List(texts(items@)),
        }
    }
}

pub const NONE_LISTED: &'static str = "(none)";

pub const LIST_SEPARATOR: &'static str = ", ";

/// A value rendered on one line, for tables.
pub open spec fn value_display(v: ValueView) -> Seq<char> {
    match v {
        ValueView::Text(t) => t,
        ValueView::List(items) => if items.len() == 0 {
            NONE_LISTED@
        } else {
            join(items, LIST_SEPARATOR@)
        },
    }
}

impl Value {
    /// Render on one line, for tables.
    pub fn as_display(&self) -> (r: String)
        ensures
            r@ == value_display(self@),
    {
        match self {
            Value::Text(text) => text.clone(),
            Value::List(items) => if items.len() == 0 {
                owned(NONE_LISTED)
            } else {
                join_strings(items, LIST_SEPARATOR)
            },
        }
    }
}

/// A pre-filled or outstanding listing field.
#[derive(Debug, Clone, PartialEq, Eq)]
pub struct ListingField {
    pub name: &'static str,
    /// The value, or [`None`] when nothing in the app artefact supplies it.
    pub value: Option<Value>,
    pub basis: Basis,
    pub evidence: Vec<Evidence>,
    /// The published approval criterion that requires this field, quoted, for
    /// fields the partner must supply.
    pub required_by: Option<&'static str>,
}

/// The mathematical content of a [`ListingField`].
pub struct ListingFieldView {
    pub name: Seq<char>,
    pub value: Option<ValueView>,
    pub basis: Basis,
    pub evidence: Seq<EvidenceView>,
    pub required_by: Option<Seq<char>>,
}

impl View for ListingField {
    type V = ListingFieldView;

    open spec fn view(&self) -> ListingFieldView {
        ListingFieldView {
            name: self.name@,
            value: match self.value {
                Some(v) => Some(v@),
                None => None,
            },
            basis: self.basis,
            evidence: evidence_views(self.evidence@),
            required_by: match self.required_by {
                Some(c) => Some(c@),
                None => None,
            },
        }
    }
}

/// The views of a list of listing fields.
pub open spec fn field_views(v: Seq<ListingField>) -> Seq<ListingFieldView> {
    v.map_values(|f: ListingField| f@)
}

/// A field whose value was derived from the app artefact.
pub open spec fn derived_field(
    name: &'static str,
    value: ValueView,
    basis: Basis,
    evidence: Seq<EvidenceView>,
) -> ListingFieldView {
    ListingFieldView { name: name@, value: Some(value), basis, evidence, required_by: None }
}

/// A field the partner must supply, with the criterion that requires it.
pub open spec fn outstanding_field(name: &'static str, required_by: &'static str) -> ListingFieldView {
    ListingFieldView {
        name: name@,
        value: None,
        basis: Basis::RequiresPartnerInput,
        evidence: Seq::empty(),
        required_by: Some(required_by@),
    }
}

impl ListingField {
    fn derived(name: &'static str, value: Value, basis: Basis, evidence: Vec<Evidence>) -> (r: Self)
        ensures
            r@ == derived_field(name, value@, basis, evidence_views(evidence@)),
    {
        ListingField { name, value: Some(value), basis, evidence, required_by: None }
    }

    fn outstanding(name: &'static str, required_by: &'static str) -> (r: Self)
        ensures
            r@ == outstanding_field(name, required_by),
    {
        ListingField {
            name,
            value: None,
            basis: Basis::RequiresPartnerInput,
            evidence: no_evidence(),
            required_by: Some(required_by),
        }
    }

    /// Whether the partner still has to supply this field.
    pub fn is_outstanding(&self) -> (r: bool)
        ensures
            r == (self.value is None),
    {
        self.value.is_none()
    }
}

pub const APP_NAME_CRITERION: &'static str = "Doesn't infringe Atlassian trademarks [...] This includes visual assets as well as naming conventions.";

pub const DEPLOYMENT_MODEL: &'static str = "Cloud (Forge)";

/// Listing fields no app artefact can supply, with the approval criterion
/// that requires each one, quoted from the published guidelines.
pub open spec fn outstanding_fields() -> Seq<(&'static str, &'static str)> {
    seq![
        ("Summary and description", "Performs as described: Your app does what it advertises."),
        ("Category", "Performs as described: Your app does what it advertises."),
        ("Privacy policy URL", "Create a privacy policy."),
        (
            "Documentation URL",
            "Provide documentation: Your listing should reference documentation that describes how to set up and use your app.",
        ),
        (
            "Marketing assets (logo, banner, screenshots)",
            "Provide marketing assets like a logo, banner, and screenshots [...] Declare these assets in the app descriptor.",
        ),
        (
            "Pricing model",
            "Reasonable pricing: Your paid app should be reasonably and competitively priced.",
        ),
        (
            "Source code URL and licence (open-source apps)",
            "Available source code for open-source apps: [...] Include a license file in your source code that matches what you report in the Marketplace.",
        ),
        (
            "Support contact email",
            "Valid company email address for paid-via-Atlassian apps: Personal or generic domains (like Gmail or Yahoo) are not permitted for paid-via-Atlassian apps.",
        ),
        (
            "Security contact with an ecosystem.atlassian.net account",
            "Fulfill the security requirements outlined in the security workflow. (Security questionnaire question 17.)",
        ),
        (
            "Developer Community registration",
            "Register with our Developer Community: At least one contact from your partner profile is registered with the Atlassian Developer Community.",
        ),
        (
            "Marketplace Partner Agreement accepted",
            "Accept the Marketplace Partner Agreement: Upon submission, accept the Marketplace Partner Agreement.",
        ),
    ]
}

fn outstanding_table() -> (r: Vec<(&'static str, &'static str)>)
    ensures
        r@ == outstanding_fields(),
{
    let r = vec![
        ("Summary and description", "Performs as described: Your app does what it advertises."),
        ("Category", "Performs as described: Your app does what it advertises."),
        ("Privacy policy URL", "Create a privacy policy."),
        (
            "Documentation URL",
            "Provide documentation: Your listing should reference documentation that describes how to set up and use your app.",
        ),
        (
            "Marketing assets (logo, banner, screenshots)",
            "Provide marketing assets like a logo, banner, and screenshots [...] Declare these assets in the app descriptor.",
        ),
        (
            "Pricing model",
            "Reasonable pricing: Your paid app should be reasonably and competitively priced.",
        ),
        (
            "Source code URL and licence (open-source apps)",
            "Available source code for open-source apps: [...] Include a license file in your source code that matches what you report in the Marketplace.",
        ),
        (
            "Support contact email",
            "Valid company email address for paid-via-Atlassian apps: Personal or generic domains (like Gmail or Yahoo) are not permitted for paid-via-Atlassian apps.",
        ),
        (
            "Security contact with an ecosystem.atlassian.net account",
            "Fulfill the security requirements outlined in the security workflow. (Security questionnaire question 17.)",
        ),
        (
            "Developer Community registration",
            "Register with our Developer Community: At least one contact from your partner profile is registered with the Atlassian Developer Community.",
        ),
        (
            "Marketplace Partner Agreement accepted",
            "Accept the Marketplace Partner Agreement: Upon submission, accept the Marketplace Partner Agreement.",
        ),
    ];
    assert(r@ =~= outstanding_fields());
    r
}

/// How a remote is listed: its key, and its base URL in brackets when set.
pub open spec fn remote_label(r: Remote) -> Seq<char> {
    match r.base_url {
        Some(url) => r.key@ + " ("@ + url@ + ")"@,
        None => r.key@,
    }
}

/// The listing section, in the order it is shown.
pub open spec fn build_spec(facts: ManifestFacts) -> Seq<ListingFieldView> {
    let app_id = match facts.app_id {
        Some(id) => seq![
            derived_field(
                "App ID",
                ValueView::Text(id@),
                Basis::Deterministic,
                seq![cite("app.id"@, id@)],
            ),
        ],
        None => Seq::empty(),
    };
    let app_name = match facts.app_name {
        Some(name) => derived_field(
            "App name",
            ValueView::Text(name@),
            Basis::Deterministic,
            seq![cite("app.name"@, name@)],
        ),
        None => outstanding_field("App name", APP_NAME_CRITERION),
    };
    let runtime = match facts.runtime {
        Some(rt) => seq![
            derived_field(
                "Forge runtime",
                ValueView::Text(rt@),
                Basis::Deterministic,
                seq![cite("app.runtime.name"@, rt@)],
            ),
        ],
        None => Seq::empty(),
    };
    app_id + seq![
        app_name,
        derived_field(
            "Deployment model",
            ValueView::Text(DEPLOYMENT_MODEL@),
            Basis::Deterministic,
            Seq::empty(),
        ),
    ] + runtime + seq![
        derived_field(
            "Host products",
            ValueView::List(
                facts.host_products@.map_values(
                    |p: crate::facts::HostProduct| host_product_display(p@),
                ),
            ),
            Basis::Heuristic,
            module_citations(facts.declared_module_types@),
        ),
        derived_field(
            "Declared modules",
            ValueView::List(texts(facts.declared_module_types@)),
            Basis::Deterministic,
            Seq::empty(),
        ),
        derived_field(
            "Permission scopes",
            ValueView::List(facts.scopes@.map_values(|s: crate::facts::Scope| s.raw@)),
            Basis::Deterministic,
            scope_citations(facts),
        ),
        derived_field(
            "External egress destinations",
            ValueView::List(
                facts.external_egress@.map_values(|e: crate::facts::EgressEntry| e.value@),
            ),
            Basis::Deterministic,
            egress_citations(facts),
        ),
        derived_field(
            "Forge remotes",
            ValueView::List(facts.remotes@.map_values(|r: Remote| remote_label(r))),
            Basis::Deterministic,
            Seq::empty(),
        ),
    ] + outstanding_fields().map_values(
        |p: (&'static str, &'static str)| outstanding_field(p.0, p.1),
    )
}

fn one_citation(pointer: &str, value: &str) -> (r: Vec<Evidence>)
    ensures
        evidence_views(r@) == seq![cite(pointer@, value@)],
{
    let mut r = Vec::new();
    r.push(Evidence::new(owned(pointer), owned(value)));
    proof {
        assert(evidence_views(r@) =~= seq![cite(pointer@, value@)]);
    }
    r
}

fn push_field(out: &mut Vec<ListingField>, f: ListingField)
    ensures
        field_views(final(out)@) == field_views(old(out)@).push(f@),
{
    let ghost before = out@;
    out.push(f);
    proof {
        assert(field_views(out@) =~= field_views(before).push(f@));
    }
}

fn host_product_names(facts: &ManifestFacts) -> (r: Vec<String>)
    ensures
        texts(r@) == facts.host_products@.map_values(
            |p: crate::facts::HostProduct| host_product_display(p@),
        ),
{
    let mut out: Vec<String> = Vec::new();
    let mut i: usize = 0;
    while i < facts.host_products.len()
        invariant
            i <= facts.host_products.len(),
            out@.len() == i,
            forall|j: int|
                0 <= j < i ==> #[trigger] out@[j]@ == host_product_display(facts.host_products@[j]@),
        decreases facts.host_products.len() - i,
    {
        out.push(owned(facts.host_products[i].display()));
        i = i + 1;
    }
    proof {
        assert(texts(out@) =~= facts.host_products@.map_values(
            |p: crate::facts::HostProduct| host_product_display(p@),
        ));
    }
    out
}

fn copy_strings(v: &Vec<String>) -> (r: Vec<String>)
    ensures
        texts(r@) == texts(v@),
{
    let mut out: Vec<String> = Vec::new();
    let mut i: usize = 0;
    while i < v.len()
        invariant
            i <= v.len(),
            out@.len() == i,
            forall|j: int| 0 <= j < i ==> #[trigger] out@[j]@ == v@[j]@,
        decreases v.len() - i,
    {
        out.push(v[i].clone());
        i = i + 1;
    }
    proof {
        assert(texts(out@) =~= texts(v@));
    }
    out
}

fn scope_names(facts: &ManifestFacts) -> (r: Vec<String>)
    ensures
        texts(r@) == facts.scopes@.map_values(|s: crate::facts::Scope| s.raw@),
{
    let mut out: Vec<String> = Vec::new();
    let mut i: usize = 0;
    while i < facts.scopes.len()
        invariant
            i <= facts.scopes.len(),
            out@.len() == i,
            forall|j: int| 0 <= j < i ==> #[trigger] out@[j]@ == facts.scopes@[j].raw@,
        decreases facts.scopes.len() - i,
    {
        out.push(facts.scopes[i].raw.clone());
        i = i + 1;
    }
    proof {
        assert(texts(out@) =~= facts.scopes@.map_values(|s: crate::facts::Scope| s.raw@));
    }
    out
}

fn egress_values(facts: &ManifestFacts) -> (r: Vec<String>)
    ensures
        texts(r@) == facts.external_egress@.map_values(|e: crate::facts::EgressEntry| e.value@),
{
    let mut out: Vec<String> = Vec::new();
    let mut i: usize = 0;
    while i < facts.external_egress.len()
        invariant
            i <= facts.external_egress.len(),
            out@.len() == i,
            forall|j: int| 0 <= j < i ==> #[trigger] out@[j]@ == facts.external_egress@[j].value@,
        decreases facts.external_egress.len() - i,
    {
        out.push(facts.external_egress[i].value.clone());
        i = i + 1;
    }
    proof {
        assert(texts(out@) =~= facts.external_egress@.map_values(
            |e: crate::facts::EgressEntry| e.value@,
        ));
    }
    out
}

fn remote_labels(facts: &ManifestFacts) -> (r: Vec<String>)
    ensures
        texts(r@) == facts.remotes@.map_values(|r: Remote| remote_label(r)),
{
    let mut out: Vec<String> = Vec::new();
    let mut i: usize = 0;
    while i < facts.remotes.len()
        invariant
            i <= facts.remotes.len(),
            out@.len() == i,
            forall|j: int| 0 <= j < i ==> #[trigger] out@[j]@ == remote_label(facts.remotes@[j]),
        decreases facts.remotes.len() - i,
    {
        let remote = &facts.remotes[i];
        let label = match &remote.base_url {
            Some(url) => appended(concat3(remote.key.as_str(), " (", url.as_str()), ")"),
            None => remote.key.clone(),
        };
        proof {
            assert(label@ =~= remote_label(*remote));
        }
        out.push(label);
        i = i + 1;
    }
    proof {
        assert(texts(out@) =~= facts.remotes@.map_values(|r: Remote| remote_label(r)));
    }
    out
}

/// Build the listing section.
pub fn build(facts: &ManifestFacts) -> (r: Vec<ListingField>)
    ensures
        field_views(r@) == build_spec(*facts),
{
    let mut fields: Vec<ListingField> = Vec::new();
    let ghost mut expected: Seq<ListingFieldView> = Seq::empty();
    proof {
        assert(field_views(fields@) =~= expected);
    }
    if let Some(app_id) = &facts.app_id {
        push_field(
            &mut fields,
            ListingField::derived(
                "App ID",
                Value::Text(app_id.clone()),
                Basis::Deterministic,
                one_citation("app.id", app_id.as_str()),
            ),
        );
    }
    match &facts.app_name {
        Some(name) => push_field(
            &mut fields,
            ListingField::derived(
                "App name",
                Value::Text(name.clone()),
                Basis::Deterministic,
                one_citation("app.name", name.as_str()),
            ),
        ),
        None => push_field(&mut fields, ListingField::outstanding("App name", APP_NAME_CRITERION)),
    }
    // A Forge manifest is by definition a cloud app on the Forge platform.
    push_field(
        &mut fields,
        ListingField::derived(
            "Deployment model",
            Value::Text(owned(DEPLOYMENT_MODEL)),
            Basis::Deterministic,
            no_evidence(),
        ),
    );
    if let Some(runtime) = &facts.runtime {
        push_field(
            &mut fields,
            ListingField::derived(
                "Forge runtime",
                Value::Text(runtime.clone()),
                Basis::Deterministic,
                one_citation("app.runtime.name", runtime.as_str()),
            ),
        );
    }
    // Inferred from module type prefixes rather than stated by the manifest.
    push_field(
        &mut fields,
        ListingField::derived(
            "Host products",
            Value::List(host_product_names(facts)),
            Basis::Heuristic,
            crate::answers::module_evidence(&facts.declared_module_types),
        ),
    );
    push_field(
        &mut fields,
        ListingField::derived(
            "Declared modules",
            Value::List(copy_strings(&facts.declared_module_types)),
            Basis::Deterministic,
            no_evidence(),
        ),
    );
    push_field(
        &mut fields,
        ListingField::derived(
            "Permission scopes",
            Value::List(scope_names(facts)),
            Basis::Deterministic,
            crate::answers::scope_evidence(facts),
        ),
    );
    push_field(
        &mut fields,
        ListingField::derived(
            "External egress destinations",
            Value::List(egress_values(facts)),
            Basis::Deterministic,
            crate::answers::egress_evidence(facts),
        ),
    );
    push_field(
        &mut fields,
        ListingField::derived(
            "Forge remotes",
            Value::List(remote_labels(facts)),
            Basis::Deterministic,
            no_evidence(),
        ),
    );
    // Everything below has no source in the app artefact.
    let table = outstanding_table();
    let ghost head = field_views(fields@);
    let mut i: usize = 0;
    while i < table.len()
        invariant
            table@ == outstanding_fields(),
            i <= table.len(),
            field_views(fields@) =~= head + outstanding_fields().take(i as int).map_values(
                |p: (&'static str, &'static str)| outstanding_field(p.0, p.1),
            ),
        decreases table.len() - i,
    {
        let (name, required_by) = table[i];
        push_field(&mut fields, ListingField::outstanding(name, required_by));
        proof {
            assert(outstanding_fields().take(i + 1).map_values(
                |p: (&'static str, &'static str)| outstanding_field(p.0, p.1),
            ) =~= outstanding_fields().take(i as int).map_values(
                |p: (&'static str, &'static str)| outstanding_field(p.0, p.1),
            ).push(outstanding_field(name, required_by)));
        }
        i = i + 1;
    }
    proof {
        assert(outstanding_fields().take(table.len() as int) =~= outstanding_fields());
        assert(field_views(fields@) =~= build_spec(*facts));
    }
    fields
}

/// Every field of the listing section is either filled in from the app
/// artefact, with no criterion, or outstanding: then it has no value, is left
/// to the partner, and cites the published criterion that requires it.
/// "Deployment model" is always settled by the artefact.
pub proof fn lemma_outstanding_fields_cite_a_criterion(facts: ManifestFacts)
    ensures
        forall|i: int|
            0 <= i < build_spec(facts).len() ==> {
                let f = #[trigger] build_spec(facts)[i];
                (f.value is None) == (f.required_by is Some) && (f.value is None) == (f.basis
                    == Basis::RequiresPartnerInput)
            },
        exists|i: int|
            0 <= i < build_spec(facts).len() && #[trigger] build_spec(facts)[i] == derived_field(
                "Deployment model",
                ValueView::Text(DEPLOYMENT_MODEL@),
                Basis::Deterministic,
                Seq::empty(),
            ),
{
    let k: int = if facts.app_id is Some {
        2
    } else {
        1
    };
    assert(build_spec(facts)[k] == derived_field(
        "Deployment model",
        ValueView::Text(DEPLOYMENT_MODEL@),
        Basis::Deterministic,
        Seq::empty(),
    ));
}

} // verus!
