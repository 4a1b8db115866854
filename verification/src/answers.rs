//! Deriving questionnaire answers from manifest facts.
//!
//! A manifest describes what an app *declares*, not what its code *does*:
//!
//! - Declarations are pre-filled ([`Basis::Deterministic`]).
//! - Consequences of declarations are inferred ([`Basis::Heuristic`]).
//! - Behaviour of the app's own code is deferred
//!   ([`Basis::RequiresCodeReview`]), unless a scan of the app's source
//!   answers it: a finding gives the unfavourable answer, a clean run the
//!   favourable one, both inferred and marked for confirmation.
//! - Behaviour of systems outside the app, and organisational commitments, are
//!   deferred to the partner ([`Basis::RequiresPartnerInput`]).
//!
//! Questions 2a and 2b are the important case of the last kind: the
//! `remotes[].auth` block governs which extra tokens Forge forwards, and says
//! nothing about whether the partner's server validates the invocation token.
//! The manifest facts are attached as evidence all the same.
use vstd::prelude::*;

use crate::code_analysis::{
    checker_display, finding_views, findings_of, Checker, CheckerView, CodeAnalysis,
    CodeFindingView, Verdict,
};
use crate::evidence::{cite, evidence_views, Basis, Evidence, EvidenceView};
use crate::facts::{egress_pattern_debug, egress_pattern_name, Located, ManifestFacts, Remote};
use crate::questionnaire::{
    answer_display, asked_when_spec, forge_questionnaire, tripped_by, AnswerKind, AnswerValue,
    AnswerValueView, AppType, AskedWhen, Category, NonConforming, Question, ReviewSignal,
};
use crate::text::{
    appended, around_number, bool_string, bool_text, concat3, decimal, owned,
    same_text,
};

verus! {

// ---------------------------------------------------------------------------
// Rationales
// ---------------------------------------------------------------------------

pub const WHY_AS_USER: &'static str = "Whether asUser() is used where applicable is a property of the app's code, not its manifest.";

pub const WHY_PERMISSION_APIS: &'static str = "Whether permissions REST APIs are called before asApp() actions is a property of the app's code, not its manifest.";

pub const WHY_WEBTRIGGER_AUTH: &'static str = "Whether the web trigger authenticates its caller is a property of the trigger's handler, not its declaration.";

pub const WHY_DISPLAY_CONDITION_RELIANCE: &'static str = "Whether permissions are also checked in code, rather than relying on display conditions alone, is a property of the app's code.";

pub const WHY_LOGGING: &'static str = "What the app writes to Forge logs is a property of its code.";

pub const WHY_INPUT_VALIDATION: &'static str = "Input validation and sanitisation are properties of the app's code.";

pub const WHY_ATLASSIAN_CREDENTIALS: &'static str = "Whether Atlassian account credentials are collected is a property of the app's code.";

pub const WHY_TOKEN_STORAGE: &'static str = "Whether third-party tokens are written to Forge storage, and whether they are encrypted, is a property of the app's code.";

pub const WHY_PLAINTEXT_SECRETS: &'static str = "Locating secrets committed in plain text requires scanning the app's source and repository.";

pub const WHY_REMOTE_FIT: &'static str = "The remote host is not part of the Forge app, so the manifest cannot show whether it validates the Forge Invocation Token. Note that the remotes[].auth block governs which additional app tokens Forge forwards; it is not evidence about FIT validation.";

pub const WHY_REMOTE_PERMISSIONS: &'static str = "Permission checks performed by the remote host are outside the Forge app artefact.";

pub const WHY_ORGANISATIONAL: &'static str = "An organisational commitment, not a property of the app artefact.";

pub const WHY_NOT_DERIVABLE: &'static str = "Not derivable from the app artefact; the partner must answer.";

pub const WHY_NO_MODULES: &'static str = "The manifest declares no modules.";

pub const WHY_ONLY_PLUMBING: &'static str = "Every declared module type is background plumbing (functions, triggers, resources), none of which surfaces a user interface.";

pub const WHY_USER_FACING: &'static str = "The app declares module types that surface a user interface.";

pub const WHY_NO_REMOTES: &'static str = "The manifest declares no `remotes`.";

pub const MANIFEST_DECLARES: &'static str = "The manifest declares ";

pub const REMOTE_COUNT_SUFFIX: &'static str = " remote(s).";

pub const WHY_NO_WEBTRIGGERS: &'static str = "The manifest declares no `webtrigger` module.";

pub const WEBTRIGGER_COUNT_SUFFIX: &'static str = " web trigger(s).";

pub const WHY_NO_DISPLAY_CONDITIONS: &'static str = "No module declares `displayConditions`.";

pub const DISPLAY_CONDITION_COUNT_SUFFIX: &'static str = " module(s) declare `displayConditions`.";

pub const WHY_NO_EGRESS: &'static str = "The manifest declares no `permissions.external` destinations and no `remotes`.";

pub const WHY_EGRESS: &'static str = "The manifest declares external destinations, a Forge remote, or both.";

pub const WHY_NO_WILDCARD: &'static str = "No declared egress destination is `*` or a whole top-level-domain wildcard.";

pub const WHY_WILDCARD: &'static str = "At least one declared egress destination is `*` or a whole top-level-domain wildcard. Narrow it to the specific hosts the app contacts.";

pub const WHY_CLEARTEXT: &'static str = "A declared destination uses the `http://` scheme, which is not encrypted and therefore cannot meet the TLS 1.2 requirement.";

pub const WHY_TLS_UNKNOWN: &'static str = "The manifest names destinations but not the TLS versions they negotiate. Confirm the remote host requires TLS 1.2 or above.";

pub const WHY_NO_SCOPES: &'static str = "The app declares no permission scopes, so it cannot be over-scoped.";

pub const APP_DECLARES: &'static str = "The app declares ";

pub const READ_ONLY_SCOPES_SUFFIX: &'static str = " scope(s), all read-only. Whether each is actually used still needs the call-graph comparison that FSRT's permission scanner performs.";

pub const ELEVATED_SCOPES_MIDDLE: &'static str = " scope(s), of which ";

pub const ELEVATED_SCOPES_SUFFIX: &'static str = " grant more than read access. Confirm each is required; FSRT's permission scanner can compare declared scopes against the scopes the code actually uses.";

pub const WHY_NO_OAUTH: &'static str = "The manifest declares no external OAuth provider, but an app can still collect third-party credentials directly in code.";

pub const WHY_OAUTH: &'static str = "The app declares external OAuth provider(s), so it takes part in a third-party authorisation flow and handles that party's tokens.";

pub const NOT_ASKED_PREFIX: &'static str = "Not asked: question ";

pub const NOT_ASKED_ANSWERED: &'static str = " is answered ";

pub const NOT_ASKED_NOT_APPLICABLE: &'static str = " is not applicable.";

pub const MODULES_POINTER: &'static str = "modules.";

pub const SCOPES_POINTER: &'static str = "permissions.scopes";

// ---------------------------------------------------------------------------
// Answered questions
// ---------------------------------------------------------------------------

/// A questionnaire question with whatever this tool could determine about it.
#[derive(Debug, Clone, PartialEq, Eq)]
pub struct AnsweredQuestion {
    pub id: &'static str,
    pub parent: Option<&'static str>,
    pub category: Category,
    pub prompt: &'static str,
    pub kind: AnswerKind,
    /// The documented consequence of answering against Atlassian standards.
    pub signal: ReviewSignal,
    pub answer: AnswerValue,
    pub basis: Basis,
    /// Whether this question is asked at all, given its parent's answer.
    pub asked: bool,
    /// Whether the derived answer is the one that trips [`Self::signal`].
    pub trips_signal: bool,
    pub evidence: Vec<Evidence>,
    pub rationale: Option<String>,
    /// The partner must check this answer before submitting.
    pub confirm_before_submitting: bool,
}

/// The mathematical content of an [`AnsweredQuestion`].
pub struct AnsweredView {
    pub id: Seq<char>,
    pub parent: Option<Seq<char>>,
    pub category: Category,
    pub prompt: Seq<char>,
    pub kind: AnswerKind,
    pub signal: ReviewSignal,
    pub answer: AnswerValueView,
    pub basis: Basis,
    pub asked: bool,
    pub trips_signal: bool,
    pub evidence: Seq<EvidenceView>,
    pub rationale: Option<Seq<char>>,
    pub confirm_before_submitting: bool,
}

/// The text of an optional string.
pub open spec fn opt_text(o: Option<String>) -> Option<Seq<char>> {
    match o {
        Some(s) => Some(s@),
        None => None,
    }
}

/// The text of an optional string slice.
pub open spec fn opt_str(o: Option<&'static str>) -> Option<Seq<char>> {
    match o {
        Some(s) => Some(s@),
        None => None,
    }
}

impl View for AnsweredQuestion {
    type V = AnsweredView;

    open spec fn view(&self) -> AnsweredView {
        AnsweredView {
            id: self.id@,
            parent: opt_str(self.parent),
            category: self.category,
            prompt: self.prompt@,
            kind: self.kind,
            signal: self.signal,
            answer: self.answer@,
            basis: self.basis,
            asked: self.asked,
            trips_signal: self.trips_signal,
            evidence: evidence_views(self.evidence@),
            rationale: opt_text(self.rationale),
            confirm_before_submitting: self.confirm_before_submitting,
        }
    }
}

/// The views of a sequence of answered questions.
pub open spec fn answered_views(v: Seq<AnsweredQuestion>) -> Seq<AnsweredView> {
    v.map_values(|a: AnsweredQuestion| a@)
}

impl AnsweredQuestion {
    /// Whether the tool produced an answer the partner can work from.
    pub fn is_prefilled(&self) -> (r: bool)
        ensures
            r == !(self.answer@ is Unknown),
    {
        !matches!(self.answer, AnswerValue::Unknown)
    }
}

// ---------------------------------------------------------------------------
// Determinations
// ---------------------------------------------------------------------------

/// A determination about a single question, before it is combined with the
/// published question metadata.
struct Determination {
    answer: AnswerValue,
    basis: Basis,
    evidence: Vec<Evidence>,
    rationale: Option<String>,
}

/// The mathematical content of a determination.
pub struct DeterminationView {
    pub answer: AnswerValueView,
    pub basis: Basis,
    pub evidence: Seq<EvidenceView>,
    pub rationale: Option<Seq<char>>,
}

impl View for Determination {
    type V = DeterminationView;

    closed spec fn view(&self) -> DeterminationView {
        DeterminationView {
            answer: self.answer@,
            basis: self.basis,
            evidence: evidence_views(self.evidence@),
            rationale: opt_text(self.rationale),
        }
    }
}

/// A determination with every part given.
pub open spec fn det(
    answer: AnswerValueView,
    basis: Basis,
    evidence: Seq<EvidenceView>,
    rationale: Seq<char>,
) -> DeterminationView {
    DeterminationView { answer, basis, evidence, rationale: Some(rationale) }
}

impl Determination {
    fn new(answer: AnswerValue, basis: Basis) -> (r: Self)
        ensures
            r@ == (DeterminationView {
                answer: answer@,
                basis,
                evidence: Seq::empty(),
                rationale: None,
            }),
    {
        let r = Determination { answer, basis, evidence: Vec::new(), rationale: None };
        proof {
            assert(evidence_views(r.evidence@) =~= Seq::empty());
        }
        r
    }

    fn yes(basis: Basis) -> (r: Self)
        ensures
            r@ == (DeterminationView {
                answer: AnswerValueView::Yes,
                basis,
                evidence: Seq::empty(),
                rationale: None,
            }),
    {
        Self::new(AnswerValue::Yes, basis)
    }

    fn no(basis: Basis) -> (r: Self)
        ensures
            r@ == (DeterminationView {
                answer: AnswerValueView::No,
                basis,
                evidence: Seq::empty(),
                rationale: None,
            }),
    {
        Self::new(AnswerValue::No, basis)
    }

    /// The tool cannot answer; the question is left for code review.
    fn needs_code_review(reason: String) -> (r: Self)
        ensures
            r@ == det(AnswerValueView::Unknown, Basis::RequiresCodeReview, Seq::empty(), reason@),
    {
        Self::new(AnswerValue::Unknown, Basis::RequiresCodeReview).because(reason)
    }

    /// The tool cannot answer; the question is left for the partner.
    fn needs_partner(reason: String) -> (r: Self)
        ensures
            r@ == det(AnswerValueView::Unknown, Basis::RequiresPartnerInput, Seq::empty(), reason@),
    {
        Self::new(AnswerValue::Unknown, Basis::RequiresPartnerInput).because(reason)
    }

    fn because(self, reason: String) -> (r: Self)
        ensures
            r@ == (DeterminationView { rationale: Some(reason@), ..self@ }),
    {
        let mut s = self;
        s.rationale = Some(reason);
        s
    }

    fn citing(self, evidence: Vec<Evidence>) -> (r: Self)
        ensures
            r@ == (DeterminationView {
                evidence: self@.evidence + evidence_views(evidence@),
                ..self@
            }),
    {
        let mut s = self;
        let ghost before = s.evidence@;
        let mut more = evidence;
        let ghost added = more@;
        s.evidence.append(&mut more);
        proof {
            assert(evidence_views(s.evidence@) =~= evidence_views(before) + evidence_views(added));
        }
        s
    }
}

// ---------------------------------------------------------------------------
// Citations
// ---------------------------------------------------------------------------

/// A module type cited at `modules.<type>`.
pub open spec fn module_citations(types: Seq<String>) -> Seq<EvidenceView> {
    types.map_values(|t: String| cite(MODULES_POINTER@ + t@, t@))
}

/// Located facts cited where they were found.
pub open spec fn located_citations(v: Seq<Located<String>>) -> Seq<EvidenceView> {
    v.map_values(|l: Located<String>| cite(l.pointer@, l.value@))
}

/// One line summarising a remote's declaration.
pub open spec fn remote_summary(r: Remote) -> Seq<char> {
    "key="@ + r.key@ + ", baseUrl="@ + (match r.base_url {
        Some(u) => u@,
        None => "(unset)"@,
    }) + ", appUserToken="@ + bool_text(r.passes_user_token) + ", appSystemToken="@ + bool_text(
        r.passes_system_token,
    )
}

/// Every declared remote, cited at `remotes[<index>]`.
pub open spec fn remote_citations(facts: ManifestFacts) -> Seq<EvidenceView> {
    Seq::new(
        facts.remotes@.len(),
        |i: int| cite("remotes["@ + decimal(i as nat) + "]"@, remote_summary(facts.remotes@[i])),
    )
}

/// Every external destination, cited where it was declared.
pub open spec fn egress_citations(facts: ManifestFacts) -> Seq<EvidenceView> {
    facts.external_egress@.map_values(
        |e: crate::facts::EgressEntry| cite(e.pointer@, e.value@),
    )
}

/// The overly broad destinations, each with its pattern.
pub open spec fn wildcard_citations(facts: ManifestFacts) -> Seq<EvidenceView> {
    facts.overly_broad_positions().map_values(
        |i: int|
            cite(
                facts.external_egress@[i].pointer@,
                facts.external_egress@[i].value@ + " ("@ + egress_pattern_name(
                    facts.external_egress@[i].pattern,
                ) + ")"@,
            ),
    )
}

/// The cleartext destinations, cited where they were declared.
pub open spec fn cleartext_citations(facts: ManifestFacts) -> Seq<EvidenceView> {
    facts.cleartext_positions().map_values(
        |i: int| cite(facts.external_egress@[i].pointer@, facts.external_egress@[i].value@),
    )
}

/// Every declared scope, cited at `permissions.scopes`.
pub open spec fn scope_citations(facts: ManifestFacts) -> Seq<EvidenceView> {
    facts.scopes@.map_values(|s: crate::facts::Scope| cite(SCOPES_POINTER@, s.raw@))
}

/// Every OAuth provider, cited at `providers.auth[<index>].key`.
pub open spec fn provider_citations(facts: ManifestFacts) -> Seq<EvidenceView> {
    Seq::new(
        facts.oauth_providers@.len(),
        |i: int| cite("providers.auth["@ + decimal(i as nat) + "].key"@, facts.oauth_providers@[i]@),
    )
}

pub(crate) fn module_evidence(types: &Vec<String>) -> (r: Vec<Evidence>)
    ensures
        evidence_views(r@) == module_citations(types@),
{
    let mut out: Vec<Evidence> = Vec::new();
    let mut i: usize = 0;
    while i < types.len()
        invariant
            i <= types.len(),
            out@.len() == i,
            forall|j: int|
                0 <= j < i ==> #[trigger] out@[j]@ == cite(MODULES_POINTER@ + types@[j]@, types@[j]@),
        decreases types.len() - i,
    {
        let module = &types[i];
        out.push(Evidence::new(appended(owned(MODULES_POINTER), module.as_str()), module.clone()));
        i = i + 1;
    }
    proof {
        assert(evidence_views(out@) =~= module_citations(types@));
    }
    out
}

pub(crate) fn located_evidence(v: &Vec<Located<String>>) -> (r: Vec<Evidence>)
    ensures
        evidence_views(r@) == located_citations(v@),
{
    let mut out: Vec<Evidence> = Vec::new();
    let mut i: usize = 0;
    while i < v.len()
        invariant
            i <= v.len(),
            out@.len() == i,
            forall|j: int| 0 <= j < i ==> #[trigger] out@[j]@ == cite(v@[j].pointer@, v@[j].value@),
        decreases v.len() - i,
    {
        out.push(Evidence::from_located(&v[i]));
        i = i + 1;
    }
    proof {
        assert(evidence_views(out@) =~= located_citations(v@));
    }
    out
}

fn remote_line(remote: &Remote) -> (r: String)
    ensures
        r@ == remote_summary(*remote),
{
    let mut s = concat3("key=", remote.key.as_str(), ", baseUrl=");
    match &remote.base_url {
        Some(url) => {
            s = appended(s, url.as_str());
        },
        None => {
            s = appended(s, "(unset)");
        },
    }
    s = appended(s, ", appUserToken=");
    s = appended(s, bool_string(remote.passes_user_token).as_str());
    s = appended(s, ", appSystemToken=");
    s = appended(s, bool_string(remote.passes_system_token).as_str());
    proof {
        assert(s@ =~= remote_summary(*remote));
    }
    s
}

fn remote_evidence(facts: &ManifestFacts) -> (r: Vec<Evidence>)
    ensures
        evidence_views(r@) == remote_citations(*facts),
{
    let mut out: Vec<Evidence> = Vec::new();
    let mut i: usize = 0;
    while i < facts.remotes.len()
        invariant
            i <= facts.remotes.len(),
            out@.len() == i,
            forall|j: int|
                0 <= j < i ==> #[trigger] out@[j]@ == cite(
                    "remotes["@ + decimal(j as nat) + "]"@,
                    remote_summary(facts.remotes@[j]),
                ),
        decreases facts.remotes.len() - i,
    {
        out.push(Evidence::new(around_number("remotes[", i, "]"), remote_line(&facts.remotes[i])));
        i = i + 1;
    }
    proof {
        assert(evidence_views(out@) =~= remote_citations(*facts));
    }
    out
}

pub(crate) fn egress_evidence(facts: &ManifestFacts) -> (r: Vec<Evidence>)
    ensures
        evidence_views(r@) == egress_citations(*facts),
{
    let mut out: Vec<Evidence> = Vec::new();
    let mut i: usize = 0;
    while i < facts.external_egress.len()
        invariant
            i <= facts.external_egress.len(),
            out@.len() == i,
            forall|j: int|
                0 <= j < i ==> #[trigger] out@[j]@ == cite(
                    facts.external_egress@[j].pointer@,
                    facts.external_egress@[j].value@,
                ),
        decreases facts.external_egress.len() - i,
    {
        let entry = &facts.external_egress[i];
        out.push(Evidence::new(entry.pointer.clone(), entry.value.clone()));
        i = i + 1;
    }
    proof {
        assert(evidence_views(out@) =~= egress_citations(*facts));
    }
    out
}

fn wildcard_evidence(facts: &ManifestFacts) -> (r: Vec<Evidence>)
    ensures
        evidence_views(r@) == wildcard_citations(*facts),
{
    let positions = facts.overly_broad_egress();
    let ghost spec_positions = facts.overly_broad_positions();
    let mut out: Vec<Evidence> = Vec::new();
    let mut k: usize = 0;
    while k < positions.len()
        invariant
            k <= positions.len(),
            out@.len() == k,
            positions@.map_values(|i: usize| i as int) == spec_positions,
            spec_positions == facts.overly_broad_positions(),
            forall|m: int| 0 <= m < positions@.len() ==> positions@[m] < facts.external_egress@.len(),
            forall|j: int|
                0 <= j < k ==> #[trigger] out@[j]@ == cite(
                    facts.external_egress@[spec_positions[j]].pointer@,
                    facts.external_egress@[spec_positions[j]].value@ + " ("@ + egress_pattern_name(
                        facts.external_egress@[spec_positions[j]].pattern,
                    ) + ")"@,
                ),
        decreases positions.len() - k,
    {
        assert(spec_positions[k as int] == positions@[k as int] as int);
        let entry = &facts.external_egress[positions[k]];
        let value = appended(
            concat3(entry.value.as_str(), " (", egress_pattern_debug(entry.pattern)),
            ")",
        );
        out.push(Evidence::new(entry.pointer.clone(), value));
        k = k + 1;
    }
    proof {
        assert(evidence_views(out@) =~= wildcard_citations(*facts));
    }
    out
}

pub(crate) fn cleartext_evidence(facts: &ManifestFacts) -> (r: Vec<Evidence>)
    ensures
        evidence_views(r@) == cleartext_citations(*facts),
{
    let positions = facts.cleartext_egress();
    let ghost spec_positions = facts.cleartext_positions();
    let mut out: Vec<Evidence> = Vec::new();
    let mut k: usize = 0;
    while k < positions.len()
        invariant
            k <= positions.len(),
            out@.len() == k,
            positions@.map_values(|i: usize| i as int) == spec_positions,
            spec_positions == facts.cleartext_positions(),
            forall|m: int| 0 <= m < positions@.len() ==> positions@[m] < facts.external_egress@.len(),
            forall|j: int|
                0 <= j < k ==> #[trigger] out@[j]@ == cite(
                    facts.external_egress@[spec_positions[j]].pointer@,
                    facts.external_egress@[spec_positions[j]].value@,
                ),
        decreases positions.len() - k,
    {
        assert(spec_positions[k as int] == positions@[k as int] as int);
        let entry = &facts.external_egress[positions[k]];
        out.push(Evidence::new(entry.pointer.clone(), entry.value.clone()));
        k = k + 1;
    }
    proof {
        assert(evidence_views(out@) =~= cleartext_citations(*facts));
    }
    out
}

pub(crate) fn scope_evidence(facts: &ManifestFacts) -> (r: Vec<Evidence>)
    ensures
        evidence_views(r@) == scope_citations(*facts),
{
    let mut out: Vec<Evidence> = Vec::new();
    let mut i: usize = 0;
    while i < facts.scopes.len()
        invariant
            i <= facts.scopes.len(),
            out@.len() == i,
            forall|j: int|
                0 <= j < i ==> #[trigger] out@[j]@ == cite(SCOPES_POINTER@, facts.scopes@[j].raw@),
        decreases facts.scopes.len() - i,
    {
        out.push(Evidence::new(owned(SCOPES_POINTER), facts.scopes[i].raw.clone()));
        i = i + 1;
    }
    proof {
        assert(evidence_views(out@) =~= scope_citations(*facts));
    }
    out
}

fn provider_evidence(facts: &ManifestFacts) -> (r: Vec<Evidence>)
    ensures
        evidence_views(r@) == provider_citations(*facts),
{
    let mut out: Vec<Evidence> = Vec::new();
    let mut i: usize = 0;
    while i < facts.oauth_providers.len()
        invariant
            i <= facts.oauth_providers.len(),
            out@.len() == i,
            forall|j: int|
                0 <= j < i ==> #[trigger] out@[j]@ == cite(
                    "providers.auth["@ + decimal(j as nat) + "].key"@,
                    facts.oauth_providers@[j]@,
                ),
        decreases facts.oauth_providers.len() - i,
    {
        out.push(
            Evidence::new(
                around_number("providers.auth[", i, "].key"),
                facts.oauth_providers[i].clone(),
            ),
        );
        i = i + 1;
    }
    proof {
        assert(evidence_views(out@) =~= provider_citations(*facts));
    }
    out
}

// ---------------------------------------------------------------------------
// Per-question rules
// ---------------------------------------------------------------------------

/// Q1: inferred from whether any declared module type can surface a UI.
pub open spec fn user_interactions_spec(facts: ManifestFacts) -> DeterminationView {
    if facts.declared_module_types@.len() == 0 {
        det(AnswerValueView::Unknown, Basis::RequiresPartnerInput, Seq::empty(), WHY_NO_MODULES@)
    } else if facts.user_facing_module_types@.len() == 0 {
        det(
            AnswerValueView::No,
            Basis::Heuristic,
            module_citations(facts.declared_module_types@),
            WHY_ONLY_PLUMBING@,
        )
    } else {
        det(
            AnswerValueView::Yes,
            Basis::Heuristic,
            module_citations(facts.user_facing_module_types@),
            WHY_USER_FACING@,
        )
    }
}

/// Q2: whether the app declares a Forge remote.
pub open spec fn forge_remote_spec(facts: ManifestFacts) -> DeterminationView {
    if facts.remotes@.len() == 0 {
        det(AnswerValueView::No, Basis::Deterministic, Seq::empty(), WHY_NO_REMOTES@)
    } else {
        det(
            AnswerValueView::Yes,
            Basis::Deterministic,
            remote_citations(facts),
            MANIFEST_DECLARES@ + decimal(facts.remotes@.len()) + REMOTE_COUNT_SUFFIX@,
        )
    }
}

/// Q4: whether the app declares web triggers.
pub open spec fn web_triggers_spec(facts: ManifestFacts) -> DeterminationView {
    if facts.webtriggers@.len() == 0 {
        det(AnswerValueView::No, Basis::Deterministic, Seq::empty(), WHY_NO_WEBTRIGGERS@)
    } else {
        det(
            AnswerValueView::Yes,
            Basis::Deterministic,
            located_citations(facts.webtriggers@),
            MANIFEST_DECLARES@ + decimal(facts.webtriggers@.len()) + WEBTRIGGER_COUNT_SUFFIX@,
        )
    }
}

/// Q5: whether any module declares display conditions.
pub open spec fn display_conditions_spec(facts: ManifestFacts) -> DeterminationView {
    if facts.display_conditions@.len() == 0 {
        det(AnswerValueView::No, Basis::Deterministic, Seq::empty(), WHY_NO_DISPLAY_CONDITIONS@)
    } else {
        det(
            AnswerValueView::Yes,
            Basis::Deterministic,
            located_citations(facts.display_conditions@),
            decimal(facts.display_conditions@.len()) + DISPLAY_CONDITION_COUNT_SUFFIX@,
        )
    }
}

/// Q6: whether the app egresses data to external hosts.
pub open spec fn egress_spec(facts: ManifestFacts) -> DeterminationView {
    if !facts.egresses_data_spec() {
        det(AnswerValueView::No, Basis::Deterministic, Seq::empty(), WHY_NO_EGRESS@)
    } else {
        det(
            AnswerValueView::Yes,
            Basis::Deterministic,
            egress_citations(facts) + remote_citations(facts),
            WHY_EGRESS@,
        )
    }
}

/// Q6a: whether an egress destination is `*` or a whole-TLD wildcard.
pub open spec fn wildcard_egress_spec(facts: ManifestFacts) -> DeterminationView {
    if wildcard_citations(facts).len() == 0 {
        det(AnswerValueView::No, Basis::Deterministic, Seq::empty(), WHY_NO_WILDCARD@)
    } else {
        det(AnswerValueView::Yes, Basis::Deterministic, wildcard_citations(facts), WHY_WILDCARD@)
    }
}

/// Q6b: a cleartext destination settles it negatively; otherwise the partner
/// must answer.
pub open spec fn transport_security_spec(facts: ManifestFacts) -> DeterminationView {
    if cleartext_citations(facts).len() != 0 {
        det(AnswerValueView::No, Basis::Deterministic, cleartext_citations(facts), WHY_CLEARTEXT@)
    } else {
        det(AnswerValueView::Unknown, Basis::RequiresPartnerInput, Seq::empty(), WHY_TLS_UNKNOWN@)
    }
}

/// Q7: deliberately not answered unless there is nothing to over-scope.
pub open spec fn least_privilege_spec(facts: ManifestFacts) -> DeterminationView {
    let n = facts.scopes@.len();
    let elevated = facts.elevated_positions().len();
    if n == 0 {
        det(AnswerValueView::Yes, Basis::Heuristic, Seq::empty(), WHY_NO_SCOPES@)
    } else {
        det(
            AnswerValueView::Unknown,
            Basis::RequiresCodeReview,
            scope_citations(facts),
            if elevated == 0 {
                APP_DECLARES@ + decimal(n) + READ_ONLY_SCOPES_SUFFIX@
            } else {
                APP_DECLARES@ + decimal(n) + ELEVATED_SCOPES_MIDDLE@ + decimal(elevated)
                    + ELEVATED_SCOPES_SUFFIX@
            },
        )
    }
}

/// Q12: a declared external OAuth provider implies third-party tokens.
pub open spec fn third_party_credentials_spec(facts: ManifestFacts) -> DeterminationView {
    if facts.oauth_providers@.len() == 0 {
        det(AnswerValueView::Unknown, Basis::RequiresCodeReview, Seq::empty(), WHY_NO_OAUTH@)
    } else {
        det(AnswerValueView::Yes, Basis::Heuristic, provider_citations(facts), WHY_OAUTH@)
    }
}

/// The reason given for a question left to the partner by default.
pub open spec fn default_partner_reason_spec(c: Category) -> Seq<char> {
    if c == Category::VulnerabilityManagement {
        WHY_ORGANISATIONAL@
    } else {
        WHY_NOT_DERIVABLE@
    }
}

/// A question left for code review.
pub open spec fn code_review(reason: Seq<char>, evidence: Seq<EvidenceView>) -> DeterminationView {
    det(AnswerValueView::Unknown, Basis::RequiresCodeReview, evidence, reason)
}

/// A question left for the partner.
pub open spec fn partner(reason: Seq<char>, evidence: Seq<EvidenceView>) -> DeterminationView {
    det(AnswerValueView::Unknown, Basis::RequiresPartnerInput, evidence, reason)
}

/// The per-question derivation rules.
pub open spec fn derive_spec(q: Question, facts: ManifestFacts) -> DeterminationView {
    let id = q.id@;
    if id == "1"@ {
        user_interactions_spec(facts)
    } else if id == "2"@ {
        forge_remote_spec(facts)
    } else if id == "4"@ {
        web_triggers_spec(facts)
    } else if id == "5"@ {
        display_conditions_spec(facts)
    } else if id == "6"@ {
        egress_spec(facts)
    } else if id == "6a"@ {
        wildcard_egress_spec(facts)
    } else if id == "6b"@ {
        transport_security_spec(facts)
    } else if id == "7"@ {
        least_privilege_spec(facts)
    } else if id == "12"@ {
        third_party_credentials_spec(facts)
    } else if id == "1a"@ {
        code_review(WHY_AS_USER@, Seq::empty())
    } else if id == "3"@ {
        code_review(WHY_PERMISSION_APIS@, Seq::empty())
    } else if id == "4a"@ {
        code_review(WHY_WEBTRIGGER_AUTH@, located_citations(facts.webtriggers@))
    } else if id == "5a"@ {
        code_review(WHY_DISPLAY_CONDITION_RELIANCE@, located_citations(facts.display_conditions@))
    } else if id == "8"@ {
        code_review(WHY_LOGGING@, Seq::empty())
    } else if id == "9"@ {
        code_review(WHY_INPUT_VALIDATION@, Seq::empty())
    } else if id == "11"@ {
        code_review(WHY_ATLASSIAN_CREDENTIALS@, Seq::empty())
    } else if id == "12a"@ {
        code_review(WHY_TOKEN_STORAGE@, Seq::empty())
    } else if id == "13"@ {
        code_review(WHY_PLAINTEXT_SECRETS@, Seq::empty())
    } else if id == "2a"@ {
        partner(WHY_REMOTE_FIT@, remote_citations(facts))
    } else if id == "2b"@ {
        partner(WHY_REMOTE_PERMISSIONS@, remote_citations(facts))
    } else {
        partner(default_partner_reason_spec(q.category), Seq::empty())
    }
}

fn default_partner_reason(question: &Question) -> (r: &'static str)
    ensures
        r@ == default_partner_reason_spec(question.category),
{
    match question.category {
        Category::VulnerabilityManagement => WHY_ORGANISATIONAL,
        _ => WHY_NOT_DERIVABLE,
    }
}

fn user_interactions(facts: &ManifestFacts) -> (r: Determination)
    ensures
        r@ == user_interactions_spec(*facts),
{
    if facts.declared_module_types.len() == 0 {
        return Determination::needs_partner(owned(WHY_NO_MODULES));
    }
    if facts.user_facing_module_types.len() == 0 {
        return Determination::no(Basis::Heuristic).because(owned(WHY_ONLY_PLUMBING)).citing(
            module_evidence(&facts.declared_module_types),
        );
    }
    Determination::yes(Basis::Heuristic).because(owned(WHY_USER_FACING)).citing(
        module_evidence(&facts.user_facing_module_types),
    )
}

fn forge_remote(facts: &ManifestFacts) -> (r: Determination)
    ensures
        r@ == forge_remote_spec(*facts),
{
    if facts.remotes.len() == 0 {
        return Determination::no(Basis::Deterministic).because(owned(WHY_NO_REMOTES));
    }
    Determination::yes(Basis::Deterministic).because(
        around_number(MANIFEST_DECLARES, facts.remotes.len(), REMOTE_COUNT_SUFFIX),
    ).citing(remote_evidence(facts))
}

fn web_triggers(facts: &ManifestFacts) -> (r: Determination)
    ensures
        r@ == web_triggers_spec(*facts),
{
    if facts.webtriggers.len() == 0 {
        return Determination::no(Basis::Deterministic).because(owned(WHY_NO_WEBTRIGGERS));
    }
    Determination::yes(Basis::Deterministic).because(
        around_number(MANIFEST_DECLARES, facts.webtriggers.len(), WEBTRIGGER_COUNT_SUFFIX),
    ).citing(located_evidence(&facts.webtriggers))
}

fn display_conditions(facts: &ManifestFacts) -> (r: Determination)
    ensures
        r@ == display_conditions_spec(*facts),
{
    if facts.display_conditions.len() == 0 {
        return Determination::no(Basis::Deterministic).because(owned(WHY_NO_DISPLAY_CONDITIONS));
    }
    let reason = around_number("", facts.display_conditions.len(), DISPLAY_CONDITION_COUNT_SUFFIX);
    proof {
        reveal_strlit("");
        assert(reason@ =~= decimal(facts.display_conditions@.len())
            + DISPLAY_CONDITION_COUNT_SUFFIX@);
    }
    Determination::yes(Basis::Deterministic).because(reason).citing(
        located_evidence(&facts.display_conditions),
    )
}

fn egress(facts: &ManifestFacts) -> (r: Determination)
    ensures
        r@ == egress_spec(*facts),
{
    if !facts.egresses_data() {
        return Determination::no(Basis::Deterministic).because(owned(WHY_NO_EGRESS));
    }
    let mut evidence = egress_evidence(facts);
    let mut remotes = remote_evidence(facts);
    let ghost a = evidence@;
    let ghost b = remotes@;
    evidence.append(&mut remotes);
    proof {
        assert(evidence_views(evidence@) =~= evidence_views(a) + evidence_views(b));
    }
    Determination::yes(Basis::Deterministic).because(owned(WHY_EGRESS)).citing(evidence)
}

fn wildcard_egress(facts: &ManifestFacts) -> (r: Determination)
    ensures
        r@ == wildcard_egress_spec(*facts),
{
    let broad = wildcard_evidence(facts);
    if broad.len() == 0 {
        return Determination::no(Basis::Deterministic).because(owned(WHY_NO_WILDCARD));
    }
    Determination::yes(Basis::Deterministic).because(owned(WHY_WILDCARD)).citing(broad)
}

fn transport_security(facts: &ManifestFacts) -> (r: Determination)
    ensures
        r@ == transport_security_spec(*facts),
{
    let cleartext = cleartext_evidence(facts);
    if cleartext.len() != 0 {
        return Determination::no(Basis::Deterministic).because(owned(WHY_CLEARTEXT)).citing(
            cleartext,
        );
    }
    Determination::needs_partner(owned(WHY_TLS_UNKNOWN))
}

fn least_privilege(facts: &ManifestFacts) -> (r: Determination)
    ensures
        r@ == least_privilege_spec(*facts),
{
    if facts.scopes.len() == 0 {
        return Determination::yes(Basis::Heuristic).because(owned(WHY_NO_SCOPES));
    }
    let elevated = facts.elevated_scopes();
    proof {
        assert(elevated@.len() == facts.elevated_positions().len());
    }
    let all = scope_evidence(facts);
    let reason = if elevated.len() == 0 {
        around_number(APP_DECLARES, facts.scopes.len(), READ_ONLY_SCOPES_SUFFIX)
    } else {
        let head = around_number(APP_DECLARES, facts.scopes.len(), ELEVATED_SCOPES_MIDDLE);
        let tail = around_number("", elevated.len(), ELEVATED_SCOPES_SUFFIX);
        let r = appended(head, tail.as_str());
        proof {
            reveal_strlit("");
            assert(r@ =~= APP_DECLARES@ + decimal(facts.scopes@.len()) + ELEVATED_SCOPES_MIDDLE@
                + decimal(elevated@.len()) + ELEVATED_SCOPES_SUFFIX@);
        }
        r
    };
    Determination::needs_code_review(reason).citing(all)
}

fn third_party_credentials(facts: &ManifestFacts) -> (r: Determination)
    ensures
        r@ == third_party_credentials_spec(*facts),
{
    if facts.oauth_providers.len() == 0 {
        return Determination::needs_code_review(owned(WHY_NO_OAUTH));
    }
    Determination::yes(Basis::Heuristic).because(owned(WHY_OAUTH)).citing(
        provider_evidence(facts),
    )
}

fn derive(question: &Question, facts: &ManifestFacts) -> (r: Determination)
    ensures
        r@ == derive_spec(*question, *facts),
{
    let id = question.id;
    if same_text(id, "1") {
        user_interactions(facts)
    } else if same_text(id, "2") {
        forge_remote(facts)
    } else if same_text(id, "4") {
        web_triggers(facts)
    } else if same_text(id, "5") {
        display_conditions(facts)
    } else if same_text(id, "6") {
        egress(facts)
    } else if same_text(id, "6a") {
        wildcard_egress(facts)
    } else if same_text(id, "6b") {
        transport_security(facts)
    } else if same_text(id, "7") {
        least_privilege(facts)
    } else if same_text(id, "12") {
        third_party_credentials(facts)
    } else if same_text(id, "1a") {
        Determination::needs_code_review(owned(WHY_AS_USER))
    } else if same_text(id, "3") {
        Determination::needs_code_review(owned(WHY_PERMISSION_APIS))
    } else if same_text(id, "4a") {
        Determination::needs_code_review(owned(WHY_WEBTRIGGER_AUTH)).citing(
            located_evidence(&facts.webtriggers),
        )
    } else if same_text(id, "5a") {
        Determination::needs_code_review(owned(WHY_DISPLAY_CONDITION_RELIANCE)).citing(
            located_evidence(&facts.display_conditions),
        )
    } else if same_text(id, "8") {
        Determination::needs_code_review(owned(WHY_LOGGING))
    } else if same_text(id, "9") {
        Determination::needs_code_review(owned(WHY_INPUT_VALIDATION))
    } else if same_text(id, "11") {
        Determination::needs_code_review(owned(WHY_ATLASSIAN_CREDENTIALS))
    } else if same_text(id, "12a") {
        Determination::needs_code_review(owned(WHY_TOKEN_STORAGE))
    } else if same_text(id, "13") {
        Determination::needs_code_review(owned(WHY_PLAINTEXT_SECRETS))
    } else if same_text(id, "2a") {
        Determination::needs_partner(owned(WHY_REMOTE_FIT)).citing(remote_evidence(facts))
    } else if same_text(id, "2b") {
        Determination::needs_partner(owned(WHY_REMOTE_PERMISSIONS)).citing(remote_evidence(facts))
    } else {
        Determination::needs_partner(owned(default_partner_reason(question)))
    }
}

// ---------------------------------------------------------------------------
// Answers from a scan of the app's source
// ---------------------------------------------------------------------------

/// The scan checker whose verdict answers a question, if any: the
/// authorization checker for the `asUser()` and permission-check questions,
/// the authentication checker for web trigger authentication, the permission
/// checker for least privilege, the credential checker for collected
/// Atlassian credentials, and the secret checker for secrets in plain text.
pub open spec fn checker_for(id: Seq<char>) -> Option<CheckerView> {
    if id == "1a"@ || id == "3"@ {
        Some(CheckerView::Authorization)
    } else if id == "4a"@ {
        Some(CheckerView::Authentication)
    } else if id == "7"@ {
        Some(CheckerView::LeastPrivilege)
    } else if id == "11"@ {
        Some(CheckerView::AtlassianCredential)
    } else if id == "13"@ {
        Some(CheckerView::HardcodedSecret)
    } else {
        None
    }
}

/// The answer that trips a question's signal.
pub open spec fn nonconforming_answer(bad: NonConforming) -> AnswerValueView {
    match bad {
        NonConforming::Yes => AnswerValueView::Yes,
        NonConforming::No => AnswerValueView::No,
    }
}

/// The other answer: the one that meets the standard.
pub open spec fn conforming_answer(bad: NonConforming) -> AnswerValueView {
    match bad {
        NonConforming::Yes => AnswerValueView::No,
        NonConforming::No => AnswerValueView::Yes,
    }
}

/// The findings of one checker, cited by check name and description.
pub open spec fn finding_citations(c: CodeAnalysis, checker: CheckerView) -> Seq<EvidenceView> {
    findings_of(c.findings@, checker).map_values(|f: CodeFindingView| cite(f.check_name, f.description))
}

pub const SCAN_FOUND_SUFFIX: &'static str = " reported this in the app's source; its findings are cited.";

pub const SCAN_CLEAN_SUFFIX: &'static str = " ran over the app's source and found nothing. A scanner finding nothing is not proof that nothing is there, so confirm this before submitting.";

/// The determination for an asked question. Where the manifest leaves it for
/// code review and the scan's checker for it ran, a finding gives the answer
/// that trips the signal, and a clean run gives the other one; both are
/// inferred, never read, so both are marked for confirmation. A checker that
/// did not run, or no scan, changes nothing.
pub open spec fn scanned_spec(q: Question, facts: ManifestFacts, code: Option<CodeAnalysis>) -> DeterminationView {
    let d = derive_spec(q, facts);
    match code {
        Some(c) => match checker_for(q.id@) {
            Some(checker) => match q.nonconforming {
                Some(bad) => if d.basis != Basis::RequiresCodeReview {
                    d
                } else {
                    match c.verdict_spec(checker) {
                        Verdict::Found => det(
                            nonconforming_answer(bad),
                            Basis::Heuristic,
                            d.evidence + finding_citations(c, checker),
                            "The "@ + checker_display(checker) + SCAN_FOUND_SUFFIX@,
                        ),
                        Verdict::Clean => det(
                            conforming_answer(bad),
                            Basis::Heuristic,
                            d.evidence,
                            "The "@ + checker_display(checker) + SCAN_CLEAN_SUFFIX@,
                        ),
                        Verdict::NotRun => d,
                    }
                },
                None => d,
            },
            None => d,
        },
        None => d,
    }
}

/// The scan checker whose verdict answers a question, if any.
fn checker_for_question(id: &str) -> (r: Option<Checker>)
    ensures
        match checker_for(id@) {
            Some(c) => r matches Some(d) && d@ == c,
            None => r is None,
        },
{
    if same_text(id, "1a") || same_text(id, "3") {
        Some(Checker::Authorization)
    } else if same_text(id, "4a") {
        Some(Checker::Authentication)
    } else if same_text(id, "7") {
        Some(Checker::LeastPrivilege)
    } else if same_text(id, "11") {
        Some(Checker::AtlassianCredential)
    } else if same_text(id, "13") {
        Some(Checker::HardcodedSecret)
    } else {
        None
    }
}

/// The findings of one checker, cited by check name and description.
fn finding_evidence(c: &CodeAnalysis, checker: &Checker) -> (r: Vec<Evidence>)
    ensures
        evidence_views(r@) == finding_citations(*c, checker@),
{
    let findings = c.findings_by(checker);
    let ghost fs = finding_views(findings@);
    let mut out: Vec<Evidence> = Vec::new();
    let mut i: usize = 0;
    while i < findings.len()
        invariant
            i <= findings.len(),
            fs == finding_views(findings@),
            out@.len() == i,
            forall|j: int| 0 <= j < i ==> #[trigger] out@[j]@ == cite(fs[j].check_name, fs[j].description),
        decreases findings.len() - i,
    {
        out.push(Evidence::new(findings[i].check_name.clone(), findings[i].description.clone()));
        i = i + 1;
    }
    proof {
        assert(evidence_views(out@) =~= fs.map_values(
            |f: CodeFindingView| cite(f.check_name, f.description),
        ));
    }
    out
}

/// The determination for an asked question, given the scan; see
/// [`scanned_spec`].
fn scanned(question: &Question, facts: &ManifestFacts, code: Option<&CodeAnalysis>) -> (r:
    Determination)
    ensures
        r@ == scanned_spec(
            *question,
            *facts,
            match code {
                Some(c) => Some(*c),
                None => None,
            },
        ),
{
    let d = derive(question, facts);
    let c = match code {
        Some(c) => c,
        None => {
            return d;
        },
    };
    let checker = match checker_for_question(question.id) {
        Some(checker) => checker,
        None => {
            return d;
        },
    };
    let bad = match question.nonconforming {
        Some(bad) => bad,
        None => {
            return d;
        },
    };
    if !matches!(d.basis, Basis::RequiresCodeReview) {
        return d;
    }
    match c.verdict(&checker) {
        Verdict::Found => {
            let answer = match bad {
                NonConforming::Yes => AnswerValue::Yes,
                NonConforming::No => AnswerValue::No,
            };
            let reason = concat3("The ", checker.display(), SCAN_FOUND_SUFFIX);
            let cited = finding_evidence(c, &checker);
            let mut r = d.citing(cited);
            r.answer = answer;
            r.basis = Basis::Heuristic;
            r.because(reason)
        },
        Verdict::Clean => {
            let answer = match bad {
                NonConforming::Yes => AnswerValue::No,
                NonConforming::No => AnswerValue::Yes,
            };
            let reason = concat3("The ", checker.display(), SCAN_CLEAN_SUFFIX);
            let mut r = d;
            r.answer = answer;
            r.basis = Basis::Heuristic;
            r.because(reason)
        },
        Verdict::NotRun => d,
    }
}

// ---------------------------------------------------------------------------
// Gating sub-questions on their parent's answer
// ---------------------------------------------------------------------------

enum Gate {
    Asked,
    NotAsked { basis: Basis, reason: String },
}

/// Whether a question is asked, and if not, why not.
pub enum GateView {
    Asked,
    NotAsked { basis: Basis, reason: Seq<char> },
}

impl View for Gate {
    type V = GateView;

    closed spec fn view(&self) -> GateView {
        match self {
            Gate::Asked => GateView::Asked,
            Gate::NotAsked { basis, reason } => GateView::NotAsked { basis: *basis, reason: reason@ },
        }
    }
}

/// The first earlier answer with the given id.
pub open spec fn first_answer_with_id(prior: Seq<AnsweredView>, id: Seq<char>, from: int) -> Option<
    int,
>
    decreases prior.len() - from,
{
    if from < 0 || from >= prior.len() {
        None
    } else if prior[from].id == id {
        Some(from)
    } else {
        first_answer_with_id(prior, id, from + 1)
    }
}

/// Decide whether a question is asked, given its parent's answer among the
/// questions answered before it.
///
/// A parent that could not be answered (or that is missing) leaves the
/// sub-question open; only a parent answered the other way, or ruled not
/// applicable, closes it.
pub open spec fn gate_spec(q: Question, prior: Seq<AnsweredView>) -> GateView {
    match (q.parent, asked_when_spec(q)) {
        (Some(pid), Some(when)) => match first_answer_with_id(prior, pid@, 0) {
            None => GateView::Asked,
            Some(k) => {
                let parent = prior[k];
                if (when == AskedWhen::ParentIsYes && parent.answer is Yes) || (when
                    == AskedWhen::ParentIsNo && parent.answer is No) {
                    GateView::Asked
                } else if parent.answer is Yes || parent.answer is No {
                    GateView::NotAsked {
                        basis: parent.basis,
                        reason: NOT_ASKED_PREFIX@ + pid@ + NOT_ASKED_ANSWERED@ + answer_display(
                            parent.answer,
                        ) + "."@,
                    }
                } else if parent.answer is NotApplicable {
                    GateView::NotAsked {
                        basis: parent.basis,
                        reason: NOT_ASKED_PREFIX@ + pid@ + NOT_ASKED_NOT_APPLICABLE@,
                    }
                } else {
                    GateView::Asked
                }
            },
        },
        _ => GateView::Asked,
    }
}

fn find_answer(answered: &Vec<AnsweredQuestion>, id: &str) -> (r: Option<usize>)
    ensures
        r matches Some(k) ==> k < answered@.len() && first_answer_with_id(
            answered_views(answered@),
            id@,
            0,
        ) == Some(k as int),
        r is None ==> first_answer_with_id(answered_views(answered@), id@, 0) is None,
{
    let ghost views = answered_views(answered@);
    let mut i: usize = 0;
    while i < answered.len()
        invariant
            i <= answered.len(),
            views == answered_views(answered@),
            first_answer_with_id(views, id@, 0) == first_answer_with_id(views, id@, i as int),
        decreases answered.len() - i,
    {
        assert(views[i as int] == answered@[i as int]@);
        if same_text(answered[i].id, id) {
            return Some(i);
        }
        i = i + 1;
    }
    None
}

fn gate(question: &Question, answered: &Vec<AnsweredQuestion>) -> (r: Gate)
    ensures
        r@ == gate_spec(*question, answered_views(answered@)),
{
    let parent_id = match question.parent {
        Some(p) => p,
        None => {
            return Gate::Asked;
        },
    };
    let asked_when = match question.asked_when() {
        Some(w) => w,
        None => {
            return Gate::Asked;
        },
    };
    let k = match find_answer(answered, parent_id) {
        Some(k) => k,
        None => {
            return Gate::Asked;
        },
    };
    let parent = &answered[k];
    proof {
        assert(answered_views(answered@)[k as int] == parent@);
        assert(first_answer_with_id(answered_views(answered@), parent_id@, 0) == Some(k as int));
        assert(question.parent == Some(parent_id));
        assert(asked_when_spec(*question) == Some(asked_when));
    }
    // A parent we could not answer leaves the sub-question open too.
    let matches_required = match (asked_when, &parent.answer) {
        (AskedWhen::ParentIsYes, AnswerValue::Yes) => true,
        (AskedWhen::ParentIsNo, AnswerValue::No) => true,
        _ => false,
    };
    if matches_required {
        return Gate::Asked;
    }
    // Only skip when the parent was actually answered the other way.
    match &parent.answer {
        AnswerValue::Yes | AnswerValue::No => {
            let reason = appended(
                appended(
                    concat3(NOT_ASKED_PREFIX, parent_id, NOT_ASKED_ANSWERED),
                    parent.answer.as_display(),
                ),
                ".",
            );
            proof {
                assert(reason@ =~= NOT_ASKED_PREFIX@ + parent_id@ + NOT_ASKED_ANSWERED@
                    + answer_display(parent.answer@) + "."@);
            }
            Gate::NotAsked { basis: parent.basis, reason }
        },
        AnswerValue::NotApplicable => Gate::NotAsked {
            basis: parent.basis,
            reason: concat3(NOT_ASKED_PREFIX, parent_id, NOT_ASKED_NOT_APPLICABLE),
        },
        _ => Gate::Asked,
    }
}

// ---------------------------------------------------------------------------
// The whole questionnaire
// ---------------------------------------------------------------------------

/// The answer to one question, given the answers to the questions before it.
pub open spec fn answer_one(
    q: Question,
    prior: Seq<AnsweredView>,
    facts: ManifestFacts,
    code: Option<CodeAnalysis>,
) -> AnsweredView {
    let g = gate_spec(q, prior);
    let asked = g is Asked;
    let d = match g {
        GateView::Asked => scanned_spec(q, facts, code),
        GateView::NotAsked { basis, reason } => det(
            AnswerValueView::NotApplicable,
            basis,
            Seq::empty(),
            reason,
        ),
    };
    AnsweredView {
        id: q.id@,
        parent: opt_str(q.parent),
        category: q.category,
        prompt: q.prompt@,
        kind: q.kind,
        signal: q.signal,
        answer: d.answer,
        basis: d.basis,
        asked,
        trips_signal: match q.nonconforming {
            Some(bad) => tripped_by(bad, d.answer),
            None => false,
        },
        evidence: d.evidence,
        rationale: d.rationale,
        confirm_before_submitting: d.basis != Basis::Deterministic,
    }
}

/// The answers to the first `n` questions of the Forge questionnaire, each
/// question seeing the answers before it.
pub open spec fn answers_upto(facts: ManifestFacts, code: Option<CodeAnalysis>, n: nat) -> Seq<AnsweredView>
    decreases n,
{
    if n == 0 {
        Seq::empty()
    } else {
        let prior = answers_upto(facts, code, (n - 1) as nat);
        prior.push(answer_one(forge_questionnaire()[n - 1], prior, facts, code))
    }
}

/// The answers to the whole Forge questionnaire.
pub open spec fn answers_spec(facts: ManifestFacts, code: Option<CodeAnalysis>) -> Seq<AnsweredView> {
    answers_upto(facts, code, forge_questionnaire().len())
}

/// Answer as much of the Forge questionnaire as the manifest supports, with
/// no scan of the app's source.
pub fn answer_forge_questionnaire(facts: &ManifestFacts) -> (r: Vec<AnsweredQuestion>)
    ensures
        answered_views(r@) == answers_spec(*facts, None),
{
    answer_with_scan(facts, None)
}

/// Answer as much of the Forge questionnaire as the manifest and, when the
/// app's source was scanned, the scan's results support.
///
/// Questions are visited in published order so that a sub-question can see
/// its parent's answer.
pub fn answer_with_scan(facts: &ManifestFacts, code: Option<&CodeAnalysis>) -> (r: Vec<
    AnsweredQuestion,
>)
    ensures
        answered_views(r@) == answers_spec(
            *facts,
            match code {
                Some(c) => Some(*c),
                None => None,
            },
        ),
{
    let ghost scan = match code {
        Some(c) => Some(*c),
        None => None,
    };
    let questions = AppType::Forge.questions();
    let mut answered: Vec<AnsweredQuestion> = Vec::new();
    let mut i: usize = 0;
    while i < questions.len()
        invariant
            questions@ == forge_questionnaire(),
            i <= questions.len(),
            scan == match code {
                Some(c) => Some(*c),
                None => None,
            },
            answered_views(answered@) == answers_upto(*facts, scan, i as nat),
        decreases questions.len() - i,
    {
        let question = &questions[i];
        let gate = gate(question, &answered);
        let asked = matches!(gate, Gate::Asked);
        let determination = match gate {
            Gate::Asked => scanned(question, facts, code),
            Gate::NotAsked { basis, reason } => Determination::new(
                AnswerValue::NotApplicable,
                basis,
            ).because(reason),
        };
        let trips_signal = match question.nonconforming {
            Some(bad) => bad.is_tripped_by(&determination.answer),
            None => false,
        };
        let confirm = determination.basis.requires_confirmation();
        let item = AnsweredQuestion {
            id: question.id,
            parent: question.parent,
            category: question.category,
            prompt: question.prompt,
            kind: question.kind,
            signal: question.signal,
            confirm_before_submitting: confirm,
            answer: determination.answer,
            basis: determination.basis,
            asked,
            trips_signal,
            evidence: determination.evidence,
            rationale: determination.rationale,
        };
        let ghost before = answered@;
        proof {
            assert(item@ == answer_one(
                forge_questionnaire()[i as int],
                answers_upto(*facts, scan, i as nat),
                *facts,
                scan,
            ));
        }
        answered.push(item);
        proof {
            assert(answered_views(answered@) =~= answered_views(before).push(item@));
        }
        i = i + 1;
    }
    answered
}

// ---------------------------------------------------------------------------
// Laws
// ---------------------------------------------------------------------------

/// An answer the tool read or inferred has a derived basis; an answer it could
/// not give is deferred to code review or to the partner.
pub open spec fn basis_matches_answer(a: AnsweredView) -> bool {
    &&& a.answer is Unknown ==> (a.basis == Basis::RequiresCodeReview || a.basis
        == Basis::RequiresPartnerInput)
    &&& !(a.answer is Unknown) ==> (a.basis == Basis::Deterministic || a.basis
        == Basis::Heuristic)
    &&& !(a.answer is Text)
}

/// Every rule yields `Yes`, `No` or an unanswered value, with a basis that
/// matches: never `Not Applicable`, which only a parent answer can decide.
proof fn lemma_derive_is_consistent(q: Question, facts: ManifestFacts)
    ensures
        ({
            let d = derive_spec(q, facts);
            &&& d.answer is Yes || d.answer is No || d.answer is Unknown
            &&& d.answer is Unknown ==> (d.basis == Basis::RequiresCodeReview || d.basis
                == Basis::RequiresPartnerInput)
            &&& !(d.answer is Unknown) ==> (d.basis == Basis::Deterministic || d.basis
                == Basis::Heuristic)
        }),
{
}

/// A determination from a scan is as consistent as one from the manifest.
proof fn lemma_scanned_is_consistent(q: Question, facts: ManifestFacts, code: Option<CodeAnalysis>)
    ensures
        ({
            let d = scanned_spec(q, facts, code);
            &&& d.answer is Yes || d.answer is No || d.answer is Unknown
            &&& d.answer is Unknown ==> (d.basis == Basis::RequiresCodeReview || d.basis
                == Basis::RequiresPartnerInput)
            &&& !(d.answer is Unknown) ==> (d.basis == Basis::Deterministic || d.basis
                == Basis::Heuristic)
        }),
{
    lemma_derive_is_consistent(q, facts);
}

/// Each of the first `n` answers is the answer to its question given the
/// answers before it.
proof fn lemma_answers_upto_prefix(facts: ManifestFacts, code: Option<CodeAnalysis>, n: nat)
    requires
        n <= forge_questionnaire().len(),
    ensures
        answers_upto(facts, code, n).len() == n,
        forall|i: int|
            0 <= i < n ==> #[trigger] answers_upto(facts, code, n)[i] == answer_one(
                forge_questionnaire()[i],
                answers_upto(facts, code, i as nat),
                facts,
                code,
            ),
    decreases n,
{
    if n > 0 {
        lemma_answers_upto_prefix(facts, code, (n - 1) as nat);
        assert forall|i: int| 0 <= i < n implies #[trigger] answers_upto(facts, code, n)[i] == answer_one(
            forge_questionnaire()[i],
            answers_upto(facts, code, i as nat),
            facts,
            code,
        ) by {
            if i < n - 1 {
                assert(answers_upto(facts, code, n)[i] == answers_upto(facts, code, (n - 1) as nat)[i]);
            }
        }
    }
}

/// The bases of the first `n` answers match their answers.
proof fn lemma_answers_upto_consistent(facts: ManifestFacts, code: Option<CodeAnalysis>, n: nat)
    requires
        n <= forge_questionnaire().len(),
    ensures
        forall|i: int| 0 <= i < n ==> basis_matches_answer(#[trigger] answers_upto(facts, code, n)[i]),
    decreases n,
{
    lemma_answers_upto_prefix(facts, code, n);
    if n > 0 {
        let m = (n - 1) as nat;
        lemma_answers_upto_consistent(facts, code, m);
        lemma_answers_upto_prefix(facts, code, m);
        let prior = answers_upto(facts, code, m);
        let q = forge_questionnaire()[m as int];
        lemma_scanned_is_consistent(q, facts, code);
        assert forall|i: int| 0 <= i < n implies basis_matches_answer(
            #[trigger] answers_upto(facts, code, n)[i],
        ) by {
            if i < m {
                assert(answers_upto(facts, code, n)[i] == prior[i]);
            } else {
                match (q.parent, asked_when_spec(q)) {
                    (Some(pid), Some(when)) => {
                        match first_answer_with_id(prior, pid@, 0) {
                            Some(k) => {
                                lemma_first_answer_in_bounds(prior, pid@, 0);
                                assert(basis_matches_answer(prior[k]));
                            },
                            None => {},
                        }
                    },
                    _ => {},
                }
            }
        }
    }
}

/// A found answer lies among the answers searched.
proof fn lemma_first_answer_in_bounds(prior: Seq<AnsweredView>, id: Seq<char>, from: int)
    ensures
        first_answer_with_id(prior, id, from) matches Some(k) ==> from <= k < prior.len()
            && prior[k].id == id,
    decreases prior.len() - from,
{
    if 0 <= from < prior.len() && prior[from].id != id {
        lemma_first_answer_in_bounds(prior, id, from + 1);
    }
}

/// What holds of every answer the questionnaire produces, whatever the
/// manifest says:
///
/// - there is one answer per published question, in published order;
/// - an answer needs confirmation exactly when it was not read directly from
///   the manifest;
/// - a question is asked exactly when its answer is not "Not Applicable", and
///   a question that is not asked cites nothing and trips no signal;
/// - an answer is left open exactly when it is deferred to code review or
///   to the partner; every other answer was read or inferred;
/// - only a `Yes` or `No` answer to an asked question trips a signal, and only
///   the question's declared non-conforming answer does.
pub proof fn lemma_answers_are_well_formed(facts: ManifestFacts, code: Option<CodeAnalysis>)
    ensures
        answers_spec(facts, code).len() == forge_questionnaire().len(),
        forall|i: int|
            0 <= i < answers_spec(facts, code).len() ==> {
                let a = #[trigger] answers_spec(facts, code)[i];
                let q = forge_questionnaire()[i];
                &&& a.id == q.id@ && a.signal == q.signal && a.category == q.category
                &&& a.confirm_before_submitting == (a.basis != Basis::Deterministic)
                &&& a.asked == !(a.answer is NotApplicable)
                &&& !a.asked ==> a.evidence.len() == 0 && !a.trips_signal
                &&& (a.answer is Unknown) == (a.basis == Basis::RequiresCodeReview || a.basis
                    == Basis::RequiresPartnerInput)
                &&& a.trips_signal == (a.asked && match q.nonconforming {
                    Some(bad) => tripped_by(bad, a.answer),
                    None => false,
                })
            },
{
    let n = forge_questionnaire().len();
    lemma_answers_upto_prefix(facts, code, n);
    lemma_answers_upto_consistent(facts, code, n);
    assert forall|i: int| 0 <= i < n implies {
        let a = #[trigger] answers_spec(facts, code)[i];
        let q = forge_questionnaire()[i];
        &&& a.id == q.id@ && a.signal == q.signal && a.category == q.category
        &&& a.confirm_before_submitting == (a.basis != Basis::Deterministic)
        &&& a.asked == !(a.answer is NotApplicable)
        &&& !a.asked ==> a.evidence.len() == 0 && !a.trips_signal
        &&& (a.answer is Unknown) == (a.basis == Basis::RequiresCodeReview || a.basis
            == Basis::RequiresPartnerInput)
        &&& a.trips_signal == (a.asked && match q.nonconforming {
            Some(bad) => tripped_by(bad, a.answer),
            None => false,
        })
    } by {
        let q = forge_questionnaire()[i];
        lemma_scanned_is_consistent(q, facts, code);
        assert(basis_matches_answer(answers_spec(facts, code)[i]));
    }
}

/// No answer is free text: every answer is `Yes`, `No`, "Not Applicable" or
/// left open, and an answer is pre-filled exactly when its basis produced a
/// value (read or inferred) rather than deferring it.
pub proof fn lemma_no_answer_is_free_text(facts: ManifestFacts, code: Option<CodeAnalysis>)
    ensures
        forall|i: int|
            0 <= i < answers_spec(facts, code).len() ==> {
                let a = #[trigger] answers_spec(facts, code)[i];
                &&& !(a.answer is Text)
                &&& a.answer is Yes || a.answer is No || a.answer is NotApplicable
                    || a.answer is Unknown
                &&& !(a.answer is Unknown) == (a.basis == Basis::Deterministic || a.basis
                    == Basis::Heuristic)
            },
{
    let n = forge_questionnaire().len();
    lemma_answers_upto_prefix(facts, code, n);
    lemma_answers_upto_consistent(facts, code, n);
    assert forall|i: int| 0 <= i < answers_spec(facts, code).len() implies {
        let a = #[trigger] answers_spec(facts, code)[i];
        &&& !(a.answer is Text)
        &&& a.answer is Yes || a.answer is No || a.answer is NotApplicable || a.answer is Unknown
        &&& !(a.answer is Unknown) == (a.basis == Basis::Deterministic || a.basis
            == Basis::Heuristic)
    } by {
        assert(basis_matches_answer(answers_spec(facts, code)[i]));
    }
}

/// An app that declares a Forge remote, or any `permissions.external`
/// destination, egresses data: question 6 is answered Yes, read from the
/// manifest, citing each destination and then each remote at
/// `remotes[<index>]`. Only an app that declares neither is answered No.
pub proof fn lemma_remotes_and_destinations_egress(q: Question, facts: ManifestFacts)
    requires
        q.id@ == "6"@,
    ensures
        facts.remotes@.len() != 0 ==> facts.egresses_data_spec(),
        facts.external_egress@.len() != 0 ==> facts.egresses_data_spec(),
        facts.remotes@.len() == 0 && facts.external_egress@.len() == 0 ==> !facts.egresses_data_spec(),
        facts.remotes@.len() != 0 || facts.external_egress@.len() != 0 ==> {
            let d = scanned_spec(q, facts, None);
            &&& d.answer == AnswerValueView::Yes
            &&& d.basis == Basis::Deterministic
            &&& d.evidence.len() == facts.external_egress@.len() + facts.remotes@.len()
            &&& forall|i: int|
                0 <= i < facts.remotes@.len() ==> (#[trigger] d.evidence[facts.external_egress@.len() + i]).pointer
                    == "remotes["@ + decimal(i as nat) + "]"@
        },
        facts.remotes@.len() == 0 && facts.external_egress@.len() == 0 ==> scanned_spec(q, facts, None).answer
            == AnswerValueView::No,
{
    reveal_strlit("6");
    reveal_strlit("1");
    reveal_strlit("2");
    reveal_strlit("4");
    reveal_strlit("5");
    assert(q.id@[0] == '6');
    assert("1"@[0] == '1' && "2"@[0] == '2' && "4"@[0] == '4' && "5"@[0] == '5');
    assert(q.id@ != "1"@ && q.id@ != "2"@ && q.id@ != "4"@ && q.id@ != "5"@);
    assert(derive_spec(q, facts) == egress_spec(facts));
    let d = egress_spec(facts);
    let e = egress_citations(facts);
    let r = remote_citations(facts);
    if facts.remotes@.len() != 0 || facts.external_egress@.len() != 0 {
        assert forall|i: int| 0 <= i < facts.remotes@.len() implies (#[trigger] d.evidence[facts.external_egress@.len() + i]).pointer
            == "remotes["@ + decimal(i as nat) + "]"@ by {
            assert(d.evidence[facts.external_egress@.len() + i] == r[i]);
        }
    }
}

/// The answers to the first `i` questions are the first `i` answers.
proof fn lemma_answers_upto_take(facts: ManifestFacts, code: Option<CodeAnalysis>, n: nat, i: nat)
    requires
        i <= n <= forge_questionnaire().len(),
    ensures
        answers_upto(facts, code, n).take(i as int) == answers_upto(facts, code, i),
    decreases n,
{
    lemma_answers_upto_prefix(facts, code, n);
    lemma_answers_upto_prefix(facts, code, i);
    if i < n {
        lemma_answers_upto_take(facts, code, (n - 1) as nat, i);
        assert(answers_upto(facts, code, n).take(i as int) =~= answers_upto(facts, code, (n - 1) as nat).take(
            i as int,
        ));
    } else {
        assert(answers_upto(facts, code, n).take(i as int) =~= answers_upto(facts, code, i));
    }
}

/// The answer to the parent of question `i`: the first earlier answer whose
/// id is the parent's.
pub open spec fn parent_answer(facts: ManifestFacts, code: Option<CodeAnalysis>, i: int) -> Option<AnsweredView> {
    match forge_questionnaire()[i].parent {
        Some(pid) => match first_answer_with_id(answers_spec(facts, code).take(i), pid@, 0) {
            Some(k) => Some(answers_spec(facts, code)[k]),
            None => None,
        },
        None => None,
    }
}

/// The answer a sub-question is asked on: `No` for one whose wording begins
/// "If not", `Yes` for every other.
pub open spec fn asking_answer(q: Question) -> AnswerValueView {
    if asked_when_spec(q) == Some(AskedWhen::ParentIsNo) {
        AnswerValueView::No
    } else {
        AnswerValueView::Yes
    }
}

/// Sub-questions follow their parent. A question is asked unless its parent
/// was answered the other way or ruled not applicable; a parent that could
/// not be answered keeps it open. A question that is not asked is
/// "Not Applicable", exactly as certain as its parent's answer, cites nothing
/// and trips no signal. A question without an answered parent is asked.
pub proof fn lemma_sub_questions_follow_their_parent(facts: ManifestFacts, code: Option<CodeAnalysis>, i: int)
    requires
        0 <= i < forge_questionnaire().len(),
    ensures
        ({
            let a = answers_spec(facts, code)[i];
            match parent_answer(facts, code, i) {
                Some(p) => {
                    &&& a.asked <==> (p.answer == asking_answer(forge_questionnaire()[i])
                        || p.answer is Unknown || p.answer is Text)
                    &&& !a.asked ==> (a.answer is NotApplicable && a.basis == p.basis
                        && a.evidence.len() == 0 && !a.trips_signal)
                },
                None => a.asked,
            }
        }),
{
    let n = forge_questionnaire().len();
    let q = forge_questionnaire()[i];
    lemma_answers_upto_prefix(facts, code, n);
    lemma_answers_upto_take(facts, code, n, i as nat);
    lemma_answers_are_well_formed(facts, code);
    let prior = answers_upto(facts, code, i as nat);
    assert(answers_spec(facts, code).take(i) == prior);
    assert(answers_spec(facts, code)[i] == answer_one(q, prior, facts, code));
    if let Some(pid) = q.parent {
        lemma_first_answer_in_bounds(prior, pid@, 0);
        if let Some(k) = first_answer_with_id(prior, pid@, 0) {
            assert(prior[k] == answers_spec(facts, code)[k]);
        }
    }
}

/// The questions only a review of the app's source can answer.
pub open spec fn is_code_question(id: Seq<char>) -> bool {
    id == "1a"@ || id == "3"@ || id == "4a"@ || id == "5a"@ || id == "8"@ || id == "9"@ || id
        == "11"@ || id == "12a"@ || id == "13"@
}

/// No question only a review of the source can answer is one the manifest
/// answers.
proof fn lemma_code_questions_are_not_manifest_questions(id: Seq<char>)
    requires
        is_code_question(id),
    ensures
        id != "1"@ && id != "2"@ && id != "4"@ && id != "5"@ && id != "6"@ && id != "6a"@ && id
            != "6b"@ && id != "7"@ && id != "12"@,
{
    reveal_strlit("1");
    assert("1"@.len() == 1);
    assert("1"@[0] == '1');
    reveal_strlit("2");
    assert("2"@.len() == 1);
    assert("2"@[0] == '2');
    reveal_strlit("4");
    assert("4"@.len() == 1);
    assert("4"@[0] == '4');
    reveal_strlit("5");
    assert("5"@.len() == 1);
    assert("5"@[0] == '5');
    reveal_strlit("6");
    assert("6"@.len() == 1);
    assert("6"@[0] == '6');
    reveal_strlit("6a");
    assert("6a"@.len() == 2);
    assert("6a"@[0] == '6');
    assert("6a"@[1] == 'a');
    reveal_strlit("6b");
    assert("6b"@.len() == 2);
    assert("6b"@[0] == '6');
    assert("6b"@[1] == 'b');
    reveal_strlit("7");
    assert("7"@.len() == 1);
    assert("7"@[0] == '7');
    reveal_strlit("12");
    assert("12"@.len() == 2);
    assert("12"@[0] == '1');
    assert("12"@[1] == '2');
    reveal_strlit("1a");
    assert("1a"@.len() == 2);
    assert("1a"@[0] == '1');
    assert("1a"@[1] == 'a');
    reveal_strlit("3");
    assert("3"@.len() == 1);
    assert("3"@[0] == '3');
    reveal_strlit("4a");
    assert("4a"@.len() == 2);
    assert("4a"@[0] == '4');
    assert("4a"@[1] == 'a');
    reveal_strlit("5a");
    assert("5a"@.len() == 2);
    assert("5a"@[0] == '5');
    assert("5a"@[1] == 'a');
    reveal_strlit("8");
    assert("8"@.len() == 1);
    assert("8"@[0] == '8');
    reveal_strlit("9");
    assert("9"@.len() == 1);
    assert("9"@[0] == '9');
    reveal_strlit("11");
    assert("11"@.len() == 2);
    assert("11"@[0] == '1');
    assert("11"@[1] == '1');
    reveal_strlit("12a");
    assert("12a"@.len() == 3);
    assert("12a"@[0] == '1');
    assert("12a"@[1] == '2');
    assert("12a"@[2] == 'a');
    reveal_strlit("13");
    assert("13"@.len() == 2);
    assert("13"@[0] == '1');
    assert("13"@[1] == '3');
}

/// Code behaviour is never guessed. Whatever the manifest says, a question
/// only a review of the app's source can answer is, whenever it is asked,
/// never answered as read from the manifest, always marked for confirmation,
/// and always gives its reason; with no scan of the source it is left open
/// for code review.
pub proof fn lemma_code_behaviour_is_never_guessed(facts: ManifestFacts, code: Option<CodeAnalysis>)
    ensures
        forall|i: int|
            0 <= i < answers_spec(facts, code).len() && is_code_question(
                (#[trigger] answers_spec(facts, code)[i]).id,
            ) && answers_spec(facts, code)[i].asked ==> {
                let a = answers_spec(facts, code)[i];
                &&& a.basis != Basis::Deterministic
                &&& a.confirm_before_submitting
                &&& a.rationale is Some
                &&& code is None ==> a.answer is Unknown && a.basis == Basis::RequiresCodeReview
            },
{
    let n = forge_questionnaire().len();
    lemma_answers_upto_prefix(facts, code, n);
    assert forall|i: int|
        0 <= i < answers_spec(facts, code).len() && is_code_question(
            (#[trigger] answers_spec(facts, code)[i]).id,
        ) && answers_spec(facts, code)[i].asked implies {
        let a = answers_spec(facts, code)[i];
        &&& a.basis != Basis::Deterministic
        &&& a.confirm_before_submitting
        &&& a.rationale is Some
        &&& code is None ==> a.answer is Unknown && a.basis == Basis::RequiresCodeReview
    } by {
        let q = forge_questionnaire()[i];
        let prior = answers_upto(facts, code, i as nat);
        assert(answers_spec(facts, code)[i] == answer_one(q, prior, facts, code));
        assert(gate_spec(q, prior) is Asked);
        assert(is_code_question(q.id@));
        lemma_code_questions_are_not_manifest_questions(q.id@);
        let d = derive_spec(q, facts);
        assert(d.basis == Basis::RequiresCodeReview);
        assert(d.answer is Unknown);
    }
}

/// Every question a scan checker answers declares the answer that trips its
/// signal.
proof fn lemma_scanned_questions_declare_polarity()
    ensures
        forall|i: int|
            0 <= i < forge_questionnaire().len() && checker_for(
                (#[trigger] forge_questionnaire()[i]).id@,
            ) is Some ==> forge_questionnaire()[i].nonconforming is Some,
{
    reveal_strlit("1");
    assert("1"@.len() == 1);
    assert("1"@[0] == '1');
    reveal_strlit("1a");
    assert("1a"@.len() == 2);
    assert("1a"@[0] == '1');
    assert("1a"@[1] == 'a');
    reveal_strlit("2");
    assert("2"@.len() == 1);
    assert("2"@[0] == '2');
    reveal_strlit("2a");
    assert("2a"@.len() == 2);
    assert("2a"@[0] == '2');
    assert("2a"@[1] == 'a');
    reveal_strlit("2b");
    assert("2b"@.len() == 2);
    assert("2b"@[0] == '2');
    assert("2b"@[1] == 'b');
    reveal_strlit("3");
    assert("3"@.len() == 1);
    assert("3"@[0] == '3');
    reveal_strlit("4");
    assert("4"@.len() == 1);
    assert("4"@[0] == '4');
    reveal_strlit("4a");
    assert("4a"@.len() == 2);
    assert("4a"@[0] == '4');
    assert("4a"@[1] == 'a');
    reveal_strlit("5");
    assert("5"@.len() == 1);
    assert("5"@[0] == '5');
    reveal_strlit("5a");
    assert("5a"@.len() == 2);
    assert("5a"@[0] == '5');
    assert("5a"@[1] == 'a');
    reveal_strlit("6");
    assert("6"@.len() == 1);
    assert("6"@[0] == '6');
    reveal_strlit("6a");
    assert("6a"@.len() == 2);
    assert("6a"@[0] == '6');
    assert("6a"@[1] == 'a');
    reveal_strlit("6b");
    assert("6b"@.len() == 2);
    assert("6b"@[0] == '6');
    assert("6b"@[1] == 'b');
    reveal_strlit("6c");
    assert("6c"@.len() == 2);
    assert("6c"@[0] == '6');
    assert("6c"@[1] == 'c');
    reveal_strlit("6d");
    assert("6d"@.len() == 2);
    assert("6d"@[0] == '6');
    assert("6d"@[1] == 'd');
    reveal_strlit("6d-i");
    assert("6d-i"@.len() == 4);
    assert("6d-i"@[0] == '6');
    assert("6d-i"@[1] == 'd');
    assert("6d-i"@[2] == '-');
    assert("6d-i"@[3] == 'i');
    reveal_strlit("7");
    assert("7"@.len() == 1);
    assert("7"@[0] == '7');
    reveal_strlit("8");
    assert("8"@.len() == 1);
    assert("8"@[0] == '8');
    reveal_strlit("9");
    assert("9"@.len() == 1);
    assert("9"@[0] == '9');
    reveal_strlit("9a");
    assert("9a"@.len() == 2);
    assert("9a"@[0] == '9');
    assert("9a"@[1] == 'a');
    reveal_strlit("10");
    assert("10"@.len() == 2);
    assert("10"@[0] == '1');
    assert("10"@[1] == '0');
    reveal_strlit("11");
    assert("11"@.len() == 2);
    assert("11"@[0] == '1');
    assert("11"@[1] == '1');
    reveal_strlit("12");
    assert("12"@.len() == 2);
    assert("12"@[0] == '1');
    assert("12"@[1] == '2');
    reveal_strlit("12a");
    assert("12a"@.len() == 3);
    assert("12a"@[0] == '1');
    assert("12a"@[1] == '2');
    assert("12a"@[2] == 'a');
    reveal_strlit("12a-i");
    assert("12a-i"@.len() == 5);
    assert("12a-i"@[0] == '1');
    assert("12a-i"@[1] == '2');
    assert("12a-i"@[2] == 'a');
    assert("12a-i"@[3] == '-');
    assert("12a-i"@[4] == 'i');
    reveal_strlit("13");
    assert("13"@.len() == 2);
    assert("13"@[0] == '1');
    assert("13"@[1] == '3');
    reveal_strlit("14");
    assert("14"@.len() == 2);
    assert("14"@[0] == '1');
    assert("14"@[1] == '4');
    reveal_strlit("14a");
    assert("14a"@.len() == 3);
    assert("14a"@[0] == '1');
    assert("14a"@[1] == '4');
    assert("14a"@[2] == 'a');
    reveal_strlit("15");
    assert("15"@.len() == 2);
    assert("15"@[0] == '1');
    assert("15"@[1] == '5');
    reveal_strlit("16");
    assert("16"@.len() == 2);
    assert("16"@[0] == '1');
    assert("16"@[1] == '6');
    reveal_strlit("17");
    assert("17"@.len() == 2);
    assert("17"@[0] == '1');
    assert("17"@[1] == '7');
    assert forall|i: int|
        0 <= i < forge_questionnaire().len() && checker_for(
            (#[trigger] forge_questionnaire()[i]).id@,
        ) is Some implies forge_questionnaire()[i].nonconforming is Some by {
        assert(
            i == 0 || i == 1 || i == 2 || i == 3 || i == 4 || i == 5 || i == 6 || i == 7 || i == 8
            || i == 9 || i == 10 || i == 11 || i == 12 || i == 13 || i == 14 || i == 15 || i == 16
            || i == 17 || i == 18 || i == 19 || i == 20 || i == 21 || i == 22 || i == 23 || i == 24
            || i == 25 || i == 26 || i == 27 || i == 28 || i == 29 || i == 30
        );
    }
}

/// A scan answers what the manifest leaves to code review. For a question a
/// scan checker answers, when the manifest leaves it for code review: a
/// finding gives the answer that trips the question's signal, and a clean run
/// gives the other answer; both are inferred rather than read, so both are
/// marked for confirmation. A checker that did not run, or no scan at all,
/// leaves the question open for code review.
pub proof fn lemma_scans_answer_what_the_manifest_cannot(
    facts: ManifestFacts,
    code: Option<CodeAnalysis>,
    i: int,
)
    requires
        0 <= i < forge_questionnaire().len(),
        answers_spec(facts, code)[i].asked,
        checker_for(forge_questionnaire()[i].id@) is Some,
        derive_spec(forge_questionnaire()[i], facts).basis == Basis::RequiresCodeReview,
    ensures
        ({
            let a = answers_spec(facts, code)[i];
            let q = forge_questionnaire()[i];
            let checker = checker_for(q.id@)->0;
            &&& q.nonconforming is Some
            &&& match code {
                Some(c) => match c.verdict_spec(checker) {
                    Verdict::Found => a.answer == nonconforming_answer(q.nonconforming->0)
                        && a.basis == Basis::Heuristic && a.confirm_before_submitting
                        && a.trips_signal,
                    Verdict::Clean => a.answer == conforming_answer(q.nonconforming->0) && a.basis
                        == Basis::Heuristic && a.confirm_before_submitting && !a.trips_signal,
                    Verdict::NotRun => a.answer is Unknown && a.basis == Basis::RequiresCodeReview,
                },
                None => a.answer is Unknown && a.basis == Basis::RequiresCodeReview,
            }
        }),
{
    let n = forge_questionnaire().len();
    let q = forge_questionnaire()[i];
    lemma_answers_upto_prefix(facts, code, n);
    lemma_scanned_questions_declare_polarity();
    assert(checker_for(q.id@) is Some);
    let prior = answers_upto(facts, code, i as nat);
    assert(answers_spec(facts, code)[i] == answer_one(q, prior, facts, code));
    assert(gate_spec(q, prior) is Asked);
}

} // verus!
