//! Assembling the pre-filled submission.
use vstd::prelude::*;

use crate::answers::{
    answer_with_scan, answered_views, answers_spec, AnsweredQuestion, AnsweredView,
};
use crate::code_analysis::CodeAnalysis;
use crate::evidence::Basis;
use crate::facts::{Error, ManifestFacts};
use crate::manifest::{app_id_of, describes, MISSING_APP_ID};
use crate::yaml::yaml_parse;
use crate::flags::{check, check_spec, flag_views, of_severity, Flag, FlagView};
use crate::listing::{build_spec, field_views, ListingField, ListingFieldView};
use crate::questionnaire::{AppType, ReviewSignal};
use crate::text::{concat3, decimal, decimal_string};

verus! {

/// The output format version. Bump on any breaking change to the shape, so
/// downstream consumers can pin.
pub const SCHEMA_VERSION: &'static str = "1.0";

/// Where the questionnaire encoded by this tool was transcribed from.
pub const QUESTIONNAIRE_SOURCE: &'static str = "https://developer.atlassian.com/platform/marketplace/app-security-questionnaires/";

/// The standing caveat attached to every report: the partner attests to the
/// answers, so nothing here is submitted automatically and every answer not
/// read directly out of the manifest is marked for confirmation.
pub const ATTESTATION: &'static str = "This submission was pre-filled from the app manifest. It is a draft, not an attestation. Every answer marked `confirm_before_submitting` must be checked by the partner before submission, and the partner remains responsible for the accuracy of all answers. Answers marked `requires_code_review` or `requires_partner_input` have not been answered at all and must be completed.";

/// How much of the questionnaire the tool managed to fill in.
///
/// This is the measurement that matters: what a partner no longer has to
/// type, and what they still do.
#[derive(Debug, Clone, Copy, PartialEq, Eq, Structural)]
pub struct Coverage {
    /// Every prompt in the questionnaire, including conditional sub-questions.
    pub total_prompts: usize,
    /// Prompts actually put to the partner, after conditional gating.
    pub asked: usize,
    /// Prompts that now carry an answer, including those ruled not applicable.
    pub resolved: usize,
    /// Prompts answered with a value read from or inferred from the manifest.
    pub prefilled: usize,
    /// Of which read directly from the manifest.
    pub deterministic: usize,
    /// Of which inferred from manifest signals.
    pub heuristic: usize,
    /// Ruled out because a parent question made them moot.
    pub not_applicable: usize,
    /// Left for static analysis of the app's source.
    pub requires_code_review: usize,
    /// Left for the partner.
    pub requires_partner_input: usize,
    /// [`Self::resolved`] as a percentage of [`Self::total_prompts`], in tenths
    /// of a percent: the percentage to one decimal place, times ten.
    pub percent_resolved_tenths: usize,
    /// Derived answers that trip a blocking signal.
    pub blocking_signals_tripped: usize,
    /// Derived answers that trip a warning signal.
    pub warning_signals_tripped: usize,
}

/// The ways an answer is counted.
pub enum Tally {
    Asked,
    Resolved,
    NotApplicable,
    Deterministic,
    Heuristic,
    CodeReview,
    PartnerInput,
    Tripped(ReviewSignal),
}

/// Whether an answer counts towards a tally.
pub open spec fn counts(a: AnsweredView, t: Tally) -> bool {
    let prefilled = !(a.answer is Unknown);
    match t {
        Tally::Asked => a.asked,
        Tally::Resolved => prefilled,
        Tally::NotApplicable => a.answer is NotApplicable,
        Tally::Deterministic => a.basis == Basis::Deterministic && prefilled,
        Tally::Heuristic => a.basis == Basis::Heuristic && prefilled,
        Tally::CodeReview => a.basis == Basis::RequiresCodeReview && !prefilled,
        Tally::PartnerInput => a.basis == Basis::RequiresPartnerInput && !prefilled,
        Tally::Tripped(s) => a.trips_signal && a.signal == s && (a.basis == Basis::Deterministic
            || a.basis == Basis::Heuristic),
    }
}

/// How many answers count towards a tally.
pub open spec fn tally(v: Seq<AnsweredView>, t: Tally) -> nat
    decreases v.len(),
{
    if v.len() == 0 {
        0
    } else {
        tally(v.drop_last(), t) + if counts(v.last(), t) {
            1nat
        } else {
            0nat
        }
    }
}

/// `part` as a percentage of `whole` in tenths of a percent, rounded to the
/// nearest tenth with halves rounded up; zero when `whole` is zero.
pub open spec fn percent_tenths(part: nat, whole: nat) -> nat {
    if whole == 0 {
        0
    } else {
        (2000 * part + whole) / (2 * whole)
    }
}

/// A share in tenths of a percent, as a percentage with one decimal place is
/// displayed: `33.3`, and `100` rather than `100.0`.
pub open spec fn percent_display(tenths: nat) -> Seq<char> {
    if tenths % 10 == 0 {
        decimal(tenths / 10)
    } else {
        decimal(tenths / 10) + "."@ + decimal(tenths % 10)
    }
}

/// A part of a whole is at most a hundred percent of it.
pub proof fn lemma_percent_is_bounded(part: nat, whole: nat)
    requires
        part <= whole,
    ensures
        percent_tenths(part, whole) <= 1000,
{
    if whole > 0 {
        assert((2000 * part + whole) / (2 * whole) <= 1000) by (nonlinear_arith)
            requires
                part <= whole,
                whole > 0,
        {
            assert(2000 * part + whole < 1001 * (2 * whole));
        }
    }
}

/// `part` as a percentage of `whole` in tenths of a percent, rounded to the
/// nearest tenth; zero when `whole` is zero.
pub fn percentage_tenths(part: usize, whole: usize) -> (r: u128)
    ensures
        r == percent_tenths(part as nat, whole as nat),
{
    if whole == 0 {
        return 0;
    }
    let p = part as u128;
    let w = whole as u128;
    (2000 * p + w) / (2 * w)
}

/// A share in tenths of a percent, as a percentage with one decimal place.
pub fn percent_text(tenths: usize) -> (r: String)
    ensures
        r@ == percent_display(tenths as nat),
{
    let whole = decimal_string(tenths / 10);
    if tenths % 10 == 0 {
        whole
    } else {
        let tenth = decimal_string(tenths % 10);
        concat3(whole.as_str(), ".", tenth.as_str())
    }
}

/// The coverage of a list of answers.
pub open spec fn coverage_spec(v: Seq<AnsweredView>) -> Coverage {
    Coverage {
        total_prompts: v.len() as usize,
        asked: tally(v, Tally::Asked) as usize,
        resolved: tally(v, Tally::Resolved) as usize,
        prefilled: (tally(v, Tally::Resolved) - tally(v, Tally::NotApplicable)) as usize,
        deterministic: tally(v, Tally::Deterministic) as usize,
        heuristic: tally(v, Tally::Heuristic) as usize,
        not_applicable: tally(v, Tally::NotApplicable) as usize,
        requires_code_review: tally(v, Tally::CodeReview) as usize,
        requires_partner_input: tally(v, Tally::PartnerInput) as usize,
        percent_resolved_tenths: percent_tenths(tally(v, Tally::Resolved), v.len()) as usize,
        blocking_signals_tripped: tally(v, Tally::Tripped(ReviewSignal::Fail)) as usize,
        warning_signals_tripped: tally(v, Tally::Tripped(ReviewSignal::Warning)) as usize,
    }
}

/// No tally counts more answers than there are, and a "Not Applicable"
/// answer is always a resolved one.
proof fn lemma_tally_bounds(v: Seq<AnsweredView>)
    ensures
        forall|t: Tally| #[trigger] tally(v, t) <= v.len(),
        tally(v, Tally::NotApplicable) <= tally(v, Tally::Resolved),
    decreases v.len(),
{
    if v.len() > 0 {
        lemma_tally_bounds(v.drop_last());
        assert forall|t: Tally| #[trigger] tally(v, t) <= v.len() by {
            assert(tally(v.drop_last(), t) <= v.drop_last().len());
        }
    }
}

fn bump(n: usize, yes: bool, Ghost(bound): Ghost<nat>) -> (r: usize)
    requires
        n < bound,
        bound <= usize::MAX,
    ensures
        r == n + if yes {
            1nat
        } else {
            0nat
        },
{
    if yes {
        n + 1
    } else {
        n
    }
}

impl Coverage {
    /// Count what the tool resolved, and how.
    pub fn measure(answered: &Vec<AnsweredQuestion>) -> (r: Self)
        ensures
            r == coverage_spec(answered_views(answered@)),
    {
        let ghost views = answered_views(answered@);
        let n = answered.len();
        let mut asked: usize = 0;
        let mut resolved: usize = 0;
        let mut not_applicable: usize = 0;
        let mut deterministic: usize = 0;
        let mut heuristic: usize = 0;
        let mut code_review: usize = 0;
        let mut partner_input: usize = 0;
        let mut blocking: usize = 0;
        let mut warning: usize = 0;
        let mut i: usize = 0;
        while i < n
            invariant
                n == answered@.len(),
                views == answered_views(answered@),
                i <= n,
                asked == tally(views.take(i as int), Tally::Asked),
                resolved == tally(views.take(i as int), Tally::Resolved),
                not_applicable == tally(views.take(i as int), Tally::NotApplicable),
                deterministic == tally(views.take(i as int), Tally::Deterministic),
                heuristic == tally(views.take(i as int), Tally::Heuristic),
                code_review == tally(views.take(i as int), Tally::CodeReview),
                partner_input == tally(views.take(i as int), Tally::PartnerInput),
                blocking == tally(views.take(i as int), Tally::Tripped(ReviewSignal::Fail)),
                warning == tally(views.take(i as int), Tally::Tripped(ReviewSignal::Warning)),
            decreases n - i,
        {
            let a = &answered[i];
            let ghost prefix = views.take(i as int);
            proof {
                assert(views.take(i + 1).drop_last() =~= prefix);
                assert(views.take(i + 1).last() == a@);
                lemma_tally_bounds(prefix);
            }
            let prefilled = a.is_prefilled();
            let derived = a.basis.is_derived();
            let is_na = matches!(a.answer, crate::questionnaire::AnswerValue::NotApplicable);
            asked = bump(asked, a.asked, Ghost((i + 1) as nat));
            resolved = bump(resolved, prefilled, Ghost((i + 1) as nat));
            not_applicable = bump(not_applicable, is_na, Ghost((i + 1) as nat));
            deterministic = bump(
                deterministic,
                matches!(a.basis, Basis::Deterministic) && prefilled,
                Ghost((i + 1) as nat),
            );
            heuristic = bump(
                heuristic,
                matches!(a.basis, Basis::Heuristic) && prefilled,
                Ghost((i + 1) as nat),
            );
            code_review = bump(
                code_review,
                matches!(a.basis, Basis::RequiresCodeReview) && !prefilled,
                Ghost((i + 1) as nat),
            );
            partner_input = bump(
                partner_input,
                matches!(a.basis, Basis::RequiresPartnerInput) && !prefilled,
                Ghost((i + 1) as nat),
            );
            blocking = bump(
                blocking,
                a.trips_signal && matches!(a.signal, ReviewSignal::Fail) && derived,
                Ghost((i + 1) as nat),
            );
            warning = bump(
                warning,
                a.trips_signal && matches!(a.signal, ReviewSignal::Warning) && derived,
                Ghost((i + 1) as nat),
            );
            i = i + 1;
        }
        proof {
            assert(views.take(n as int) =~= views);
            lemma_tally_bounds(views);
            lemma_percent_is_bounded(resolved as nat, n as nat);
        }
        let percent = percentage_tenths(resolved, n);
        Coverage {
            total_prompts: n,
            asked,
            resolved,
            prefilled: resolved - not_applicable,
            deterministic,
            heuristic,
            not_applicable,
            requires_code_review: code_review,
            requires_partner_input: partner_input,
            percent_resolved_tenths: percent as usize,
            blocking_signals_tripped: blocking,
            warning_signals_tripped: warning,
        }
    }
}

/// In a list where every open answer is deferred to code review or the
/// partner, and every other answer was read or inferred, the resolved and the
/// deferred answers share out the list, and the resolved ones are exactly
/// those read or inferred.
proof fn lemma_tallies_partition(v: Seq<AnsweredView>)
    requires
        forall|i: int|
            0 <= i < v.len() ==> {
                let a = #[trigger] v[i];
                (a.answer is Unknown) == (a.basis == Basis::RequiresCodeReview || a.basis
                    == Basis::RequiresPartnerInput)
            },
    ensures
        tally(v, Tally::Resolved) + tally(v, Tally::CodeReview) + tally(v, Tally::PartnerInput)
            == v.len(),
        tally(v, Tally::Deterministic) + tally(v, Tally::Heuristic) == tally(v, Tally::Resolved),
    decreases v.len(),
{
    if v.len() > 0 {
        let w = v.drop_last();
        assert forall|i: int| 0 <= i < w.len() implies {
            let a = #[trigger] w[i];
            (a.answer is Unknown) == (a.basis == Basis::RequiresCodeReview || a.basis
                == Basis::RequiresPartnerInput)
        } by {
            assert(w[i] == v[i]);
        }
        lemma_tallies_partition(w);
        assert(v.last() == v[v.len() - 1]);
    }
}

/// The questionnaire's prompts are shared out exactly: each is pre-filled,
/// ruled not applicable, left for code review or left for the partner; the
/// resolved ones are exactly those read from or inferred from the manifest,
/// or else ruled not applicable; no count exceeds the number of prompts; and
/// the share resolved is at most a hundred percent.
pub proof fn lemma_coverage_partitions_the_questionnaire(facts: ManifestFacts, code: Option<CodeAnalysis>)
    ensures
        ({
            let c = coverage_spec(answers_spec(facts, code));
            &&& c.prefilled + c.not_applicable + c.requires_code_review + c.requires_partner_input
                == c.total_prompts
            &&& c.deterministic + c.heuristic == c.resolved
            &&& c.resolved == c.prefilled + c.not_applicable
            &&& c.resolved <= c.total_prompts
            &&& c.asked <= c.total_prompts
            &&& c.blocking_signals_tripped <= c.total_prompts
            &&& c.warning_signals_tripped <= c.total_prompts
            &&& c.percent_resolved_tenths <= 1000
            &&& c.total_prompts == crate::questionnaire::forge_questionnaire().len()
        }),
{
    let v = answers_spec(facts, code);
    crate::answers::lemma_answers_are_well_formed(facts, code);
    lemma_tallies_partition(v);
    lemma_tally_bounds(v);
    lemma_percent_is_bounded(tally(v, Tally::Resolved), v.len());
}

/// Every pre-filled answer that still needs confirming was inferred rather
/// than read: answers read from the manifest are never flagged for
/// confirmation, and deferred answers are not pre-filled at all.
pub proof fn lemma_only_inferred_answers_need_confirmation(
    facts: ManifestFacts,
    code: Option<CodeAnalysis>,
)
    ensures
        forall|i: int|
            0 <= i < answers_spec(facts, code).len() ==> {
                let a = #[trigger] answers_spec(facts, code)[i];
                a.confirm_before_submitting && !(a.answer is Unknown) ==> a.basis
                    == Basis::Heuristic
            },
{
    crate::answers::lemma_answers_are_well_formed(facts, code);
    assert forall|i: int| 0 <= i < answers_spec(facts, code).len() implies {
        let a = #[trigger] answers_spec(facts, code)[i];
        a.confirm_before_submitting && !(a.answer is Unknown) ==> a.basis == Basis::Heuristic
    } by {
        let a = answers_spec(facts, code)[i];
        assert(a.confirm_before_submitting == (a.basis != Basis::Deterministic));
        assert((a.answer is Unknown) == (a.basis == Basis::RequiresCodeReview || a.basis
            == Basis::RequiresPartnerInput));
    }
}

/// A pre-filled app approval submission.
#[derive(Debug, Clone, PartialEq)]
pub struct ApprovalTemplate {
    pub schema_version: &'static str,
    pub app_type: AppType,
    pub questionnaire_source: &'static str,
    pub manifest_path: String,
    pub coverage: Coverage,
    pub flags: Vec<Flag>,
    pub listing: Vec<ListingField>,
    pub questionnaire: Vec<AnsweredQuestion>,
    pub attestation: &'static str,
}

/// What a submission pre-filled from the facts, the scan's results and the
/// manifest's path holds.
pub open spec fn built_from(
    t: ApprovalTemplate,
    facts: ManifestFacts,
    code: Option<CodeAnalysis>,
    manifest_path: Seq<char>,
) -> bool {
    &&& t.schema_version == SCHEMA_VERSION
    &&& t.app_type == AppType::Forge
    &&& t.questionnaire_source == QUESTIONNAIRE_SOURCE
    &&& t.manifest_path@ == manifest_path
    &&& answered_views(t.questionnaire@) == answers_spec(facts, code)
    &&& t.coverage == coverage_spec(answers_spec(facts, code))
    &&& flag_views(t.flags@) == check_spec(facts, code)
    &&& field_views(t.listing@) == build_spec(facts)
    &&& t.attestation == ATTESTATION
}

impl ApprovalTemplate {
    /// Pre-fill a submission from a parsed manifest and, when the app's source
    /// was scanned, the scan's results.
    pub fn build(facts: &ManifestFacts, code: Option<&CodeAnalysis>, manifest_path: String) -> (r: Self)
        ensures
            built_from(
                r,
                *facts,
                match code {
                    Some(c) => Some(*c),
                    None => None,
                },
                manifest_path@,
            ),
    {
        let questionnaire = answer_with_scan(facts, code);
        let coverage = Coverage::measure(&questionnaire);
        ApprovalTemplate {
            schema_version: SCHEMA_VERSION,
            app_type: AppType::Forge,
            questionnaire_source: QUESTIONNAIRE_SOURCE,
            manifest_path,
            coverage,
            flags: check(facts, code),
            listing: crate::listing::build(facts),
            questionnaire,
            attestation: ATTESTATION,
        }
    }

    /// Read a manifest and pre-fill a submission from it, with no scan of the
    /// app's source.
    pub fn from_manifest(source: &str, manifest_path: String) -> (r: Result<Self, Error>)
        ensures
            match yaml_parse(source@) {
                Ok(doc) => match r {
                    Ok(t) => app_id_of(doc) is Some && exists|f: ManifestFacts|
                        describes(f, doc) && #[trigger] built_from(t, f, None, manifest_path@),
                    Err(e) => app_id_of(doc) is None && (e matches Error::Yaml(m) && m@
                        == MISSING_APP_ID@),
                },
                Err(m) => r matches Err(Error::Yaml(t)) && t@ == m,
            },
    {
        match ManifestFacts::from_yaml(source) {
            Ok(facts) => {
                let t = ApprovalTemplate::build(&facts, None, manifest_path);
                proof {
                    assert(built_from(t, facts, None, manifest_path@));
                }
                Ok(t)
            },
            Err(e) => Err(e),
        }
    }

    /// Flags that would block listing if submitted as-is.
    pub fn blocking_flags(&self) -> (r: Vec<&Flag>)
        ensures
            r@.map_values(|f: &Flag| f@) == of_severity(flag_views(self.flags@), ReviewSignal::Fail),
    {
        let ghost views = flag_views(self.flags@);
        let mut out: Vec<&Flag> = Vec::new();
        let mut i: usize = 0;
        while i < self.flags.len()
            invariant
                i <= self.flags.len(),
                views == flag_views(self.flags@),
                out@.map_values(|f: &Flag| f@) =~= views.take(i as int).filter(
                    |f: FlagView| f.severity == ReviewSignal::Fail,
                ),
            decreases self.flags.len() - i,
        {
            proof {
                reveal_with_fuel(Seq::<_>::filter, 1);
                assert(views.take(i + 1).drop_last() =~= views.take(i as int));
            }
            if matches!(self.flags[i].severity, ReviewSignal::Fail) {
                out.push(&self.flags[i]);
            }
            i = i + 1;
        }
        proof {
            assert(views.take(self.flags.len() as int) =~= views);
        }
        out
    }

    /// Answers the partner must check before submitting.
    pub fn needs_confirmation(&self) -> (r: Vec<&AnsweredQuestion>)
        ensures
            r@.map_values(|a: &AnsweredQuestion| a@) == answered_views(self.questionnaire@).filter(
                |a: AnsweredView| a.confirm_before_submitting && !(a.answer is Unknown),
            ),
    {
        let ghost views = answered_views(self.questionnaire@);
        let mut out: Vec<&AnsweredQuestion> = Vec::new();
        let mut i: usize = 0;
        while i < self.questionnaire.len()
            invariant
                i <= self.questionnaire.len(),
                views == answered_views(self.questionnaire@),
                out@.map_values(|a: &AnsweredQuestion| a@) =~= views.take(i as int).filter(
                    |a: AnsweredView| a.confirm_before_submitting && !(a.answer is Unknown),
                ),
            decreases self.questionnaire.len() - i,
        {
            proof {
                reveal_with_fuel(Seq::<_>::filter, 1);
                assert(views.take(i + 1).drop_last() =~= views.take(i as int));
            }
            let a = &self.questionnaire[i];
            if a.confirm_before_submitting && a.is_prefilled() {
                out.push(a);
            }
            i = i + 1;
        }
        proof {
            assert(views.take(self.questionnaire.len() as int) =~= views);
        }
        out
    }

    /// Listing fields the partner must still supply.
    pub fn outstanding_listing_fields(&self) -> (r: Vec<&ListingField>)
        ensures
            r@.map_values(|f: &ListingField| f@) == field_views(self.listing@).filter(
                |f: ListingFieldView| f.value is None,
            ),
    {
        let ghost views = field_views(self.listing@);
        let mut out: Vec<&ListingField> = Vec::new();
        let mut i: usize = 0;
        while i < self.listing.len()
            invariant
                i <= self.listing.len(),
                views == field_views(self.listing@),
                out@.map_values(|f: &ListingField| f@) =~= views.take(i as int).filter(
                    |f: ListingFieldView| f.value is None,
                ),
            decreases self.listing.len() - i,
        {
            proof {
                reveal_with_fuel(Seq::<_>::filter, 1);
                assert(views.take(i + 1).drop_last() =~= views.take(i as int));
            }
            if self.listing[i].is_outstanding() {
                out.push(&self.listing[i]);
            }
            i = i + 1;
        }
        proof {
            assert(views.take(self.listing.len() as int) =~= views);
        }
        out
    }
}

} // verus!
