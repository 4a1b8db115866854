//! Pre-submission checks: things likely to get an app rejected, surfaced
//! before the partner submits.
//!
//! Each flag cites its rule: a question of the security questionnaire, or a
//! quoted criterion of the app approval guidelines. Flags are conservative by
//! design: a check is only included when the manifest states the problem
//! outright.
use vstd::prelude::*;

use crate::code_analysis::{Checker, CheckerView, CodeAnalysis, findings_of};
use crate::evidence::{cite, copy_all, evidence_views, Evidence, EvidenceView};
use crate::facts::{pattern_is_overly_broad, EgressPattern, ManifestFacts};
use crate::questionnaire::{signal_rank, AnswerValueView, ReviewSignal};
use crate::text::{
    appended, around_number, concat3, decimal, ends_with, has_prefix, has_suffix,
    is_alphanumeric, lowercase, occurs_at, occurs_at_exec, owned, spec_is_alphanumeric,
    spec_lowercase, spec_trim, trimmed,
};

verus! {

/// The rule a flag is derived from.
#[derive(Debug, Clone, PartialEq, Eq)]
pub enum FlagSource {
    /// A question in the published security questionnaire.
    SecurityQuestionnaire { question: &'static str },
    /// A criterion in the published app approval guidelines, quoted.
    ApprovalGuidelines { criterion: &'static str },
}

/// The mathematical content of a [`FlagSource`].
pub enum FlagSourceView {
    SecurityQuestionnaire { question: Seq<char> },
    ApprovalGuidelines { criterion: Seq<char> },
}

impl View for FlagSource {
    type V = FlagSourceView;

    open spec fn view(&self) -> FlagSourceView {
        match self {
            FlagSource::SecurityQuestionnaire { question } => FlagSourceView::SecurityQuestionnaire {
                question: question@,
            },
            FlagSource::ApprovalGuidelines { criterion } => FlagSourceView::ApprovalGuidelines {
                criterion: criterion@,
            },
        }
    }
}

/// Something worth fixing or checking before submitting.
#[derive(Debug, Clone, PartialEq, Eq)]
pub struct Flag {
    /// Stable identifier, so downstream tooling can match on it.
    pub id: &'static str,
    /// Severity, expressed in the questionnaire's own vocabulary.
    pub severity: ReviewSignal,
    pub title: &'static str,
    pub detail: String,
    pub source: FlagSource,
    pub evidence: Vec<Evidence>,
}

/// The mathematical content of a [`Flag`].
pub struct FlagView {
    pub id: Seq<char>,
    pub severity: ReviewSignal,
    pub title: Seq<char>,
    pub detail: Seq<char>,
    pub source: FlagSourceView,
    pub evidence: Seq<EvidenceView>,
}

impl View for Flag {
    type V = FlagView;

    open spec fn view(&self) -> FlagView {
        FlagView {
            id: self.id@,
            severity: self.severity,
            title: self.title@,
            detail: self.detail@,
            source: self.source@,
            evidence: evidence_views(self.evidence@),
        }
    }
}

/// The views of a sequence of flags.
pub open spec fn flag_views(v: Seq<Flag>) -> Seq<FlagView> {
    v.map_values(|f: Flag| f@)
}

impl Flag {
    /// A copy of this flag.
    pub fn copy(&self) -> (r: Self)
        ensures
            r@ == self@,
    {
        Flag {
            id: self.id,
            severity: self.severity,
            title: self.title,
            detail: self.detail.clone(),
            source: match self.source {
                FlagSource::SecurityQuestionnaire { question } => FlagSource::SecurityQuestionnaire {
                    question,
                },
                FlagSource::ApprovalGuidelines { criterion } => FlagSource::ApprovalGuidelines {
                    criterion,
                },
            },
            evidence: copy_all(&self.evidence),
        }
    }
}

// ---------------------------------------------------------------------------
// Texts
// ---------------------------------------------------------------------------

/// The guideline the naming checks enforce, quoted.
pub const TRADEMARK_CRITERION: &'static str = "Doesn't infringe Atlassian trademarks: Trademark infringement is an automatic rejection [...] This includes visual assets as well as naming conventions. For example, Jira App X would be rejected, but App X for Jira would be approved.";

pub const SECURITY_WORKFLOW_CRITERION: &'static str = "Fulfill the security requirements outlined in the security workflow";

pub const RUNTIME_ID: &'static str = "runtime.end_of_life";

pub const RUNTIME_TITLE: &'static str = "App declares an end-of-life Node.js runtime";

pub const RUNTIME_DETAIL: &'static str = "FSRT's runtime scanner reports that `app.runtime.name` names a Node.js version that is out of support. Move to a supported runtime before submitting.";

pub const NAME_MISSING_ID: &'static str = "listing.app_name_missing";

pub const NAME_MISSING_TITLE: &'static str = "App name is not declared in the manifest";

pub const NAME_MISSING_DETAIL: &'static str = "The manifest has no `app.name`, so the Marketplace listing name could not be read and the trademark naming check could not run. Check the name you submit against the brand guidelines yourself.";

pub const PREFIX_ID: &'static str = "naming.trademark_prefix";

pub const PREFIX_TITLE: &'static str = "App name begins with an Atlassian product name";

pub const PREFIX_DETAIL_OPEN: &'static str = "The name starts with \"";

pub const PREFIX_DETAIL_MIDDLE: &'static str = "\". The approval guidelines give this exact shape as an automatic rejection. Rename it so the product name trails instead, for example \"<Your app> for ";

pub const QUOTE_STOP: &'static str = "\".";

pub const MENTION_ID: &'static str = "naming.trademark_mention";

pub const MENTION_TITLE: &'static str = "App name mentions an Atlassian product name";

pub const MENTION_DETAIL_OPEN: &'static str = "The name contains \"";

pub const MENTION_DETAIL_MIDDLE: &'static str = "\" somewhere other than a trailing \"for ";

pub const MENTION_DETAIL_CLOSE: &'static str = "\". This may be acceptable, but check it against the brand guidelines for Marketplace Partners before submitting.";

pub const BROAD_ID: &'static str = "egress.overly_broad";

pub const BROAD_TITLE: &'static str = "Egress is declared to any host";

pub const BROAD_DETAIL: &'static str = "The manifest permits egress to `*` or to an entire top-level domain. Question 6a asks about exactly this and carries a warning. Narrow the declaration to the hosts the app really contacts.";

pub const CLEARTEXT_ID: &'static str = "egress.cleartext";

pub const CLEARTEXT_TITLE: &'static str = "Egress is declared over cleartext HTTP";

pub const CLEARTEXT_DETAIL: &'static str = "A declared destination uses `http://`, which is unencrypted and cannot satisfy the TLS 1.2 requirement in question 6b. That question is a blocking signal. Move the destination to HTTPS.";

pub const UNSAFE_ID: &'static str = "content_security.unsafe_directive";

pub const UNSAFE_TITLE: &'static str = "Content security policy is relaxed with an unsafe directive";

pub const UNSAFE_DETAIL: &'static str = "`permissions.content` declares an `unsafe-` directive, which widens the app's content security policy and its exposure to injection. The published Forge questionnaire has no question on this, but the Connect questionnaire treats the equivalent relaxation as a warning and the approval team is likely to ask about it. Remove it if the app does not need it.";

pub const INTERPOLATED_ID: &'static str = "remote.base_url_interpolated";

pub const INTERPOLATED_TITLE: &'static str = "Remote base URL is set at deploy time";

pub const INTERPOLATED_DETAIL: &'static str = "A remote's `baseUrl` is a `${...}` placeholder, so this tool cannot tell where the app actually sends data, and neither can anyone reading the manifest. State the real destination when you answer questions 6 and 6b.";

pub const APP_NAME_POINTER: &'static str = "app.name";

pub const QUALIFIER_PREFIX: &'static str = "for ";

// ---------------------------------------------------------------------------
// Trademark naming
// ---------------------------------------------------------------------------

/// Atlassian product names that must not lead an app name.
///
/// From the approval guidelines: "Jira App X would be rejected, but App X for
/// Jira would be approved." Every name here is ASCII, so its length in
/// characters is its length in bytes.
pub open spec fn atlassian_marks() -> Seq<&'static str> {
    seq![
        "Jira Service Management",
        "Jira Product Discovery",
        "Jira Align",
        "Atlassian",
        "Jira",
        "Confluence",
        "Bitbucket",
        "Trello",
        "Compass",
        "Statuspage",
        "Opsgenie",
        "Sourcetree",
        "Bamboo",
        "Crucible",
        "Fisheye",
        "Crowd",
        "Loom",
        "Rovo",
    ]
}

fn marks() -> (r: Vec<&'static str>)
    ensures
        r@ == atlassian_marks(),
{
    let r = vec![
        "Jira Service Management",
        "Jira Product Discovery",
        "Jira Align",
        "Atlassian",
        "Jira",
        "Confluence",
        "Bitbucket",
        "Trello",
        "Compass",
        "Statuspage",
        "Opsgenie",
        "Sourcetree",
        "Bamboo",
        "Crucible",
        "Fisheye",
        "Crowd",
        "Loom",
        "Rovo",
    ];
    assert(r@ =~= atlassian_marks());
    r
}

/// `h` has `n` at position `i` with no letter or digit on either side.
pub open spec fn word_at(h: Seq<char>, n: Seq<char>, i: int) -> bool {
    &&& (i == 0 || !spec_is_alphanumeric(h[i - 1]))
    &&& (i + n.len() == h.len() || !spec_is_alphanumeric(h[i + n.len()]))
}

/// Whether a whole-word occurrence is among the non-overlapping occurrences
/// of `n` in `h` found scanning from `i`, as `str::match_indices` finds them.
pub open spec fn word_match_from(h: Seq<char>, n: Seq<char>, i: int) -> bool
    decreases h.len() + 1 - i,
{
    if i < 0 || i + n.len() > h.len() {
        false
    } else if occurs_at(h, n, i) {
        word_at(h, n, i) || word_match_from(h, n, i + if n.len() == 0 {
            1
        } else {
            n.len() as int
        })
    } else {
        word_match_from(h, n, i + 1)
    }
}

/// `h` begins with `n` as a whole word, both taken as they stand.
pub open spec fn starts_with_word_lowered_spec(h: Seq<char>, n: Seq<char>) -> bool {
    has_prefix(h, n) && (h.len() == n.len() || !spec_is_alphanumeric(h[n.len() as int]))
}

/// `h` contains `n` as a whole word, both taken as they stand.
pub open spec fn contains_word_lowered_spec(h: Seq<char>, n: Seq<char>) -> bool {
    word_match_from(h, n, 0)
}

/// `name` ends with "for " and `mark`, both taken as they stand.
pub open spec fn ends_with_qualifier_lowered_spec(name: Seq<char>, mark: Seq<char>) -> bool {
    has_suffix(name, QUALIFIER_PREFIX@ + mark)
}

/// `haystack` begins with `needle` as a whole word, ignoring case.
pub open spec fn starts_with_word_spec(haystack: Seq<char>, needle: Seq<char>) -> bool {
    starts_with_word_lowered_spec(spec_lowercase(haystack), spec_lowercase(needle))
}

/// `haystack` contains `needle` as a whole word, ignoring case.
pub open spec fn contains_word_spec(haystack: Seq<char>, needle: Seq<char>) -> bool {
    contains_word_lowered_spec(spec_lowercase(haystack), spec_lowercase(needle))
}

/// `name` ends with "for <mark>", the form the guidelines approve.
pub open spec fn ends_with_qualifier_spec(name: Seq<char>, mark: Seq<char>) -> bool {
    ends_with_qualifier_lowered_spec(spec_lowercase(name), spec_lowercase(mark))
}

/// Among the first `n` marks, the last of the longest that `name` begins with.
pub open spec fn leading_pick(name: Seq<char>, n: nat) -> Option<int>
    decreases n,
{
    if n == 0 {
        None
    } else {
        let prev = leading_pick(name, (n - 1) as nat);
        let m = atlassian_marks()[n - 1]@;
        if starts_with_word_spec(name, m) && match prev {
            None => true,
            Some(k) => m.len() >= atlassian_marks()[k]@.len(),
        } {
            Some(n - 1)
        } else {
            prev
        }
    }
}

/// Among the first `n` marks, the last of the longest that `name` mentions
/// other than in a trailing "for <mark>".
pub open spec fn unqualified_pick(name: Seq<char>, n: nat) -> Option<int>
    decreases n,
{
    if n == 0 {
        None
    } else {
        let prev = unqualified_pick(name, (n - 1) as nat);
        let m = atlassian_marks()[n - 1]@;
        if contains_word_spec(name, m) && !ends_with_qualifier_spec(name, m) && match prev {
            None => true,
            Some(k) => m.len() >= atlassian_marks()[k]@.len(),
        } {
            Some(n - 1)
        } else {
            prev
        }
    }
}

/// The Atlassian mark an app name begins with, if any; the longest wins.
pub open spec fn leading_mark_spec(name: Seq<char>) -> Option<&'static str> {
    match leading_pick(spec_trim(name), atlassian_marks().len()) {
        Some(k) => Some(atlassian_marks()[k]),
        None => None,
    }
}

/// The Atlassian mark used somewhere other than a trailing "for <Product>".
pub open spec fn unqualified_mark_spec(name: Seq<char>) -> Option<&'static str> {
    match unqualified_pick(spec_trim(name), atlassian_marks().len()) {
        Some(k) => Some(atlassian_marks()[k]),
        None => None,
    }
}

/// Whether `h` begins with `n` as a whole word; both are already lower-cased.
pub fn starts_with_word_lowered(h: &str, n: &str) -> (r: bool)
    ensures
        r == starts_with_word_lowered_spec(h@, n@),
{
    let hn = h.unicode_len();
    let nn = n.unicode_len();
    if !crate::text::starts_with(h, n) {
        return false;
    }
    nn == hn || !is_alphanumeric(h.get_char(nn))
}

/// Whether `h` contains `n` as a whole word; both are already lower-cased.
pub fn contains_word_lowered(h: &str, n: &str) -> (r: bool)
    ensures
        r == contains_word_lowered_spec(h@, n@),
{
    let hn = h.unicode_len();
    let nn = n.unicode_len();
    let mut i: usize = 0;
    while i <= hn
        invariant
            hn == h@.len(),
            nn == n@.len(),
            word_match_from(h@, n@, 0) == word_match_from(h@, n@, i as int),
        decreases hn + 1 - i,
    {
        if nn > hn - i {
            return false;
        }
        if occurs_at_exec(h, n, i) {
            let before_ok = i == 0 || !is_alphanumeric(h.get_char(i - 1));
            let after_ok = i + nn == hn || !is_alphanumeric(h.get_char(i + nn));
            if before_ok && after_ok {
                return true;
            }
            if nn == 0 {
                if i == hn {
                    assert(!word_match_from(h@, n@, i + 1));
                    return false;
                }
                i = i + 1;
            } else {
                i = i + nn;
            }
        } else {
            proof {
                if nn == 0 {
                    assert(h@.subrange(i as int, i as int) =~= n@);
                }
            }
            i = i + 1;
        }
    }
    false
}

/// Whether `name` ends with "for " and `mark`; both are already lower-cased.
pub fn ends_with_qualifier_lowered(name: &str, mark: &str) -> (r: bool)
    ensures
        r == ends_with_qualifier_lowered_spec(name@, mark@),
{
    let suffix = appended(owned(QUALIFIER_PREFIX), mark);
    ends_with(name, suffix.as_str())
}

/// Whether `haystack` begins with `needle` as a whole word, ignoring case.
pub fn starts_with_word(haystack: &str, needle: &str) -> (r: bool)
    ensures
        r == starts_with_word_spec(haystack@, needle@),
{
    let h = lowercase(haystack);
    let n = lowercase(needle);
    starts_with_word_lowered(h.as_str(), n.as_str())
}

/// Whether `haystack` contains `needle` as a whole word, ignoring case.
pub fn contains_word(haystack: &str, needle: &str) -> (r: bool)
    ensures
        r == contains_word_spec(haystack@, needle@),
{
    let h = lowercase(haystack);
    let n = lowercase(needle);
    contains_word_lowered(h.as_str(), n.as_str())
}

/// Whether `name` ends with "for <mark>", the form the guidelines approve.
pub fn ends_with_qualifier(name: &str, mark: &str) -> (r: bool)
    ensures
        r == ends_with_qualifier_spec(name@, mark@),
{
    let lower = lowercase(name);
    let m = lowercase(mark);
    ends_with_qualifier_lowered(lower.as_str(), m.as_str())
}

/// The Atlassian mark an app name begins with, if any. Longest match wins, so
/// "Jira Service Management Helper" reports the full product name.
pub fn leading_mark(name: &str) -> (r: Option<&'static str>)
    ensures
        r == leading_mark_spec(name@),
{
    let name = trimmed(name);
    let all = marks();
    let mut best: Option<usize> = None;
    let mut i: usize = 0;
    while i < all.len()
        invariant
            all@ == atlassian_marks(),
            i <= all.len(),
            best matches Some(b) ==> b < i && leading_pick(name@, i as nat) == Some(b as int),
            best is None ==> leading_pick(name@, i as nat) is None,
        decreases all.len() - i,
    {
        let mark = all[i];
        if starts_with_word(name, mark) {
            let longer = match best {
                None => true,
                Some(b) => mark.unicode_len() >= all[b].unicode_len(),
            };
            if longer {
                best = Some(i);
            }
        }
        i = i + 1;
    }
    match best {
        Some(b) => Some(all[b]),
        None => None,
    }
}

/// An Atlassian mark used somewhere other than a trailing "for <Product>".
pub fn unqualified_mark(name: &str) -> (r: Option<&'static str>)
    ensures
        r == unqualified_mark_spec(name@),
{
    let name = trimmed(name);
    let all = marks();
    let mut best: Option<usize> = None;
    let mut i: usize = 0;
    while i < all.len()
        invariant
            all@ == atlassian_marks(),
            i <= all.len(),
            best matches Some(b) ==> b < i && unqualified_pick(name@, i as nat) == Some(b as int),
            best is None ==> unqualified_pick(name@, i as nat) is None,
        decreases all.len() - i,
    {
        let mark = all[i];
        if contains_word(name, mark) && !ends_with_qualifier(name, mark) {
            let longer = match best {
                None => true,
                Some(b) => mark.unicode_len() >= all[b].unicode_len(),
            };
            if longer {
                best = Some(i);
            }
        }
        i = i + 1;
    }
    match best {
        Some(b) => Some(all[b]),
        None => None,
    }
}

// ---------------------------------------------------------------------------
// The checks
// ---------------------------------------------------------------------------

/// A flag with every part given.
pub open spec fn flag(
    id: Seq<char>,
    severity: ReviewSignal,
    title: Seq<char>,
    detail: Seq<char>,
    source: FlagSourceView,
    evidence: Seq<EvidenceView>,
) -> FlagView {
    FlagView { id, severity, title, detail, source, evidence }
}

/// A criterion of the approval guidelines as a flag source.
pub open spec fn guideline(criterion: &'static str) -> FlagSourceView {
    FlagSourceView::ApprovalGuidelines { criterion: criterion@ }
}

/// A question of the security questionnaire as a flag source.
pub open spec fn question_source(q: &'static str) -> FlagSourceView {
    FlagSourceView::SecurityQuestionnaire { question: q@ }
}

/// The detail of the trademark-prefix flag for a mark.
pub open spec fn prefix_detail(mark: Seq<char>) -> Seq<char> {
    PREFIX_DETAIL_OPEN@ + mark + PREFIX_DETAIL_MIDDLE@ + mark + QUOTE_STOP@
}

/// The detail of the trademark-mention flag for a mark.
pub open spec fn mention_detail(mark: Seq<char>) -> Seq<char> {
    MENTION_DETAIL_OPEN@ + mark + MENTION_DETAIL_MIDDLE@ + mark + MENTION_DETAIL_CLOSE@
}

/// The naming flags for an app.
pub open spec fn check_app_name_spec(facts: ManifestFacts) -> Seq<FlagView> {
    match facts.app_name {
        None => seq![
            flag(
                NAME_MISSING_ID@,
                ReviewSignal::Info,
                NAME_MISSING_TITLE@,
                NAME_MISSING_DETAIL@,
                guideline(TRADEMARK_CRITERION),
                Seq::empty(),
            ),
        ],
        Some(name) => {
            let evidence = seq![cite(APP_NAME_POINTER@, name@)];
            match leading_mark_spec(name@) {
                Some(mark) => seq![
                    flag(
                        PREFIX_ID@,
                        ReviewSignal::Fail,
                        PREFIX_TITLE@,
                        prefix_detail(mark@),
                        guideline(TRADEMARK_CRITERION),
                        evidence,
                    ),
                ],
                None => match unqualified_mark_spec(name@) {
                    Some(mark) => seq![
                        flag(
                            MENTION_ID@,
                            ReviewSignal::Warning,
                            MENTION_TITLE@,
                            mention_detail(mark@),
                            guideline(TRADEMARK_CRITERION),
                            evidence,
                        ),
                    ],
                    None => Seq::empty(),
                },
            }
        },
    }
}

/// The egress flags for an app.
pub open spec fn check_egress_spec(facts: ManifestFacts) -> Seq<FlagView> {
    let broad = facts.overly_broad_positions().map_values(
        |i: int| cite(facts.external_egress@[i].pointer@, facts.external_egress@[i].value@),
    );
    let cleartext = crate::answers::cleartext_citations(facts);
    (if broad.len() != 0 {
        seq![
            flag(
                BROAD_ID@,
                ReviewSignal::Warning,
                BROAD_TITLE@,
                BROAD_DETAIL@,
                question_source("6a"),
                broad,
            ),
        ]
    } else {
        Seq::empty()
    }) + (if cleartext.len() != 0 {
        seq![
            flag(
                CLEARTEXT_ID@,
                ReviewSignal::Fail,
                CLEARTEXT_TITLE@,
                CLEARTEXT_DETAIL@,
                question_source("6b"),
                cleartext,
            ),
        ]
    } else {
        Seq::empty()
    })
}

/// The content security flags for an app.
pub open spec fn check_content_security_spec(facts: ManifestFacts) -> Seq<FlagView> {
    if facts.content_security_relaxations@.len() == 0 {
        Seq::empty()
    } else {
        seq![
            flag(
                UNSAFE_ID@,
                ReviewSignal::Warning,
                UNSAFE_TITLE@,
                UNSAFE_DETAIL@,
                guideline(SECURITY_WORKFLOW_CRITERION),
                crate::answers::located_citations(facts.content_security_relaxations@),
            ),
        ]
    }
}

/// The positions of the remotes whose base URL is a placeholder.
pub open spec fn interpolated_positions(facts: ManifestFacts) -> Seq<int> {
    Seq::new(facts.remotes@.len(), |i: int| i).filter(
        |i: int| facts.remotes@[i].base_url_is_interpolated,
    )
}

/// A base URL, or nothing.
pub open spec fn base_url_text(u: Option<String>) -> Seq<char> {
    match u {
        Some(s) => s@,
        None => Seq::empty(),
    }
}

/// The remote flags for an app. Each placeholder base URL is cited by its
/// remote's own position in the manifest.
pub open spec fn check_remotes_spec(facts: ManifestFacts) -> Seq<FlagView> {
    let ps = interpolated_positions(facts);
    let unresolvable = Seq::new(
        ps.len(),
        |k: int|
            cite(
                "remotes["@ + decimal(ps[k] as nat) + "].baseUrl"@,
                base_url_text(facts.remotes@[ps[k]].base_url),
            ),
    );
    if ps.len() == 0 {
        Seq::empty()
    } else {
        seq![
            flag(
                INTERPOLATED_ID@,
                ReviewSignal::Info,
                INTERPOLATED_TITLE@,
                INTERPOLATED_DETAIL@,
                question_source("6"),
                unresolvable,
            ),
        ]
    }
}

/// The runtime flags for an app, from the runtime scanner's findings.
pub open spec fn check_runtime_version_spec(code: Option<CodeAnalysis>) -> Seq<FlagView> {
    let evidence = match code {
        Some(c) => findings_of(c.findings@, CheckerView::RuntimeVersion).map_values(
            |f: crate::code_analysis::CodeFindingView| cite(f.check_name, f.description),
        ),
        None => Seq::empty(),
    };
    if evidence.len() == 0 {
        Seq::empty()
    } else {
        seq![
            flag(
                RUNTIME_ID@,
                ReviewSignal::Warning,
                RUNTIME_TITLE@,
                RUNTIME_DETAIL@,
                guideline(SECURITY_WORKFLOW_CRITERION),
                evidence,
            ),
        ]
    }
}

/// Every flag, in the order the checks run.
pub open spec fn all_flags(facts: ManifestFacts, code: Option<CodeAnalysis>) -> Seq<FlagView> {
    check_app_name_spec(facts) + check_egress_spec(facts) + check_content_security_spec(facts)
        + check_remotes_spec(facts) + check_runtime_version_spec(code)
}

/// The flags of one severity, in the order they came in.
pub open spec fn of_severity(v: Seq<FlagView>, s: ReviewSignal) -> Seq<FlagView> {
    v.filter(|f: FlagView| f.severity == s)
}

/// The flags ordered most severe first; flags of equal severity keep the
/// order of the checks (a stable sort).
pub open spec fn most_severe_first(v: Seq<FlagView>) -> Seq<FlagView> {
    of_severity(v, ReviewSignal::Fail) + of_severity(v, ReviewSignal::Warning) + of_severity(
        v,
        ReviewSignal::Info,
    )
}

/// Every pre-submission check, in the order [`check`] reports them.
pub open spec fn check_spec(facts: ManifestFacts, code: Option<CodeAnalysis>) -> Seq<FlagView> {
    most_severe_first(all_flags(facts, code))
}

fn one_flag(
    id: &'static str,
    severity: ReviewSignal,
    title: &'static str,
    detail: String,
    source: FlagSource,
    evidence: Vec<Evidence>,
) -> (r: Vec<Flag>)
    ensures
        flag_views(r@) == seq![
            flag(id@, severity, title@, detail@, source@, evidence_views(evidence@)),
        ],
{
    let mut r = Vec::new();
    r.push(Flag { id, severity, title, detail, source, evidence });
    proof {
        assert(flag_views(r@) =~= seq![
            flag(id@, severity, title@, detail@, source@, evidence_views(evidence@)),
        ]);
    }
    r
}

fn no_flags() -> (r: Vec<Flag>)
    ensures
        flag_views(r@) == Seq::<FlagView>::empty(),
{
    let r = Vec::new();
    proof {
        assert(flag_views(r@) =~= Seq::<FlagView>::empty());
    }
    r
}

fn check_app_name(facts: &ManifestFacts) -> (r: Vec<Flag>)
    ensures
        flag_views(r@) == check_app_name_spec(*facts),
{
    let name = match &facts.app_name {
        None => {
            return one_flag(
                NAME_MISSING_ID,
                ReviewSignal::Info,
                NAME_MISSING_TITLE,
                owned(NAME_MISSING_DETAIL),
                FlagSource::ApprovalGuidelines { criterion: TRADEMARK_CRITERION },
                crate::evidence::no_evidence(),
            );
        },
        Some(name) => name.as_str(),
    };
    let mut evidence = Vec::new();
    evidence.push(Evidence::new(owned(APP_NAME_POINTER), owned(name)));
    proof {
        assert(evidence_views(evidence@) =~= seq![cite(APP_NAME_POINTER@, name@)]);
    }
    if let Some(mark) = leading_mark(name) {
        let detail = appended(
            appended(concat3(PREFIX_DETAIL_OPEN, mark, PREFIX_DETAIL_MIDDLE), mark),
            QUOTE_STOP,
        );
        proof {
            assert(detail@ =~= prefix_detail(mark@));
        }
        return one_flag(
            PREFIX_ID,
            ReviewSignal::Fail,
            PREFIX_TITLE,
            detail,
            FlagSource::ApprovalGuidelines { criterion: TRADEMARK_CRITERION },
            evidence,
        );
    }
    if let Some(mark) = unqualified_mark(name) {
        let detail = appended(
            appended(concat3(MENTION_DETAIL_OPEN, mark, MENTION_DETAIL_MIDDLE), mark),
            MENTION_DETAIL_CLOSE,
        );
        proof {
            assert(detail@ =~= mention_detail(mark@));
        }
        return one_flag(
            MENTION_ID,
            ReviewSignal::Warning,
            MENTION_TITLE,
            detail,
            FlagSource::ApprovalGuidelines { criterion: TRADEMARK_CRITERION },
            evidence,
        );
    }
    no_flags()
}

fn broad_evidence(facts: &ManifestFacts) -> (r: Vec<Evidence>)
    ensures
        evidence_views(r@) == facts.overly_broad_positions().map_values(
            |i: int| cite(facts.external_egress@[i].pointer@, facts.external_egress@[i].value@),
        ),
{
    let positions = facts.overly_broad_egress();
    let ghost ps = facts.overly_broad_positions();
    let mut out: Vec<Evidence> = Vec::new();
    let mut k: usize = 0;
    while k < positions.len()
        invariant
            k <= positions.len(),
            out@.len() == k,
            positions@.map_values(|i: usize| i as int) == ps,
            ps == facts.overly_broad_positions(),
            forall|m: int| 0 <= m < positions@.len() ==> positions@[m] < facts.external_egress@.len(),
            forall|j: int|
                0 <= j < k ==> #[trigger] out@[j]@ == cite(
                    facts.external_egress@[ps[j]].pointer@,
                    facts.external_egress@[ps[j]].value@,
                ),
        decreases positions.len() - k,
    {
        assert(ps[k as int] == positions@[k as int] as int);
        let entry = &facts.external_egress[positions[k]];
        out.push(Evidence::new(entry.pointer.clone(), entry.value.clone()));
        k = k + 1;
    }
    proof {
        assert(evidence_views(out@) =~= ps.map_values(
            |i: int| cite(facts.external_egress@[i].pointer@, facts.external_egress@[i].value@),
        ));
    }
    out
}

fn check_egress(facts: &ManifestFacts) -> (r: Vec<Flag>)
    ensures
        flag_views(r@) == check_egress_spec(*facts),
{
    let mut flags = no_flags();
    let broad = broad_evidence(facts);
    if broad.len() != 0 {
        flags = one_flag(
            BROAD_ID,
            ReviewSignal::Warning,
            BROAD_TITLE,
            owned(BROAD_DETAIL),
            FlagSource::SecurityQuestionnaire { question: "6a" },
            broad,
        );
    }
    let cleartext = crate::answers::cleartext_evidence(facts);
    let ghost first = flags@;
    if cleartext.len() != 0 {
        let mut more = one_flag(
            CLEARTEXT_ID,
            ReviewSignal::Fail,
            CLEARTEXT_TITLE,
            owned(CLEARTEXT_DETAIL),
            FlagSource::SecurityQuestionnaire { question: "6b" },
            cleartext,
        );
        let ghost second = more@;
        flags.append(&mut more);
        proof {
            assert(flag_views(flags@) =~= flag_views(first) + flag_views(second));
        }
    } else {
        proof {
            assert(flag_views(flags@) =~= flag_views(first) + Seq::<FlagView>::empty());
        }
    }
    flags
}

fn check_content_security(facts: &ManifestFacts) -> (r: Vec<Flag>)
    ensures
        flag_views(r@) == check_content_security_spec(*facts),
{
    if facts.content_security_relaxations.len() == 0 {
        return no_flags();
    }
    one_flag(
        UNSAFE_ID,
        ReviewSignal::Warning,
        UNSAFE_TITLE,
        owned(UNSAFE_DETAIL),
        FlagSource::ApprovalGuidelines { criterion: SECURITY_WORKFLOW_CRITERION },
        crate::answers::located_evidence(&facts.content_security_relaxations),
    )
}

fn check_remotes(facts: &ManifestFacts) -> (r: Vec<Flag>)
    ensures
        flag_views(r@) == check_remotes_spec(*facts),
{
    let ghost all = Seq::new(facts.remotes@.len(), |i: int| i);
    let ghost keep = |i: int| facts.remotes@[i].base_url_is_interpolated;
    let ghost ps = interpolated_positions(*facts);
    let mut out: Vec<Evidence> = Vec::new();
    let mut i: usize = 0;
    while i < facts.remotes.len()
        invariant
            i <= facts.remotes.len(),
            all == Seq::new(facts.remotes@.len(), |i: int| i),
            keep == (|i: int| facts.remotes@[i].base_url_is_interpolated),
            ps == all.filter(keep),
            out@.len() == all.take(i as int).filter(keep).len(),
            forall|k: int|
                0 <= k < out@.len() ==> #[trigger] out@[k]@ == cite(
                    "remotes["@ + decimal(all.take(i as int).filter(keep)[k] as nat) + "].baseUrl"@,
                    base_url_text(facts.remotes@[all.take(i as int).filter(keep)[k]].base_url),
                ),
        decreases facts.remotes.len() - i,
    {
        proof {
            reveal_with_fuel(Seq::<_>::filter, 1);
            assert(all.take(i + 1).drop_last() =~= all.take(i as int));
        }
        let remote = &facts.remotes[i];
        if remote.base_url_is_interpolated {
            let value = match &remote.base_url {
                Some(u) => u.clone(),
                None => String::new(),
            };
            out.push(Evidence::new(around_number("remotes[", i, "].baseUrl"), value));
        }
        i = i + 1;
    }
    proof {
        assert(all.take(facts.remotes.len() as int) =~= all);
    }
    if out.len() == 0 {
        return no_flags();
    }
    let r = one_flag(
        INTERPOLATED_ID,
        ReviewSignal::Info,
        INTERPOLATED_TITLE,
        owned(INTERPOLATED_DETAIL),
        FlagSource::SecurityQuestionnaire { question: "6" },
        out,
    );
    proof {
        assert(evidence_views(out@) =~= Seq::new(
            ps.len(),
            |k: int|
                cite(
                    "remotes["@ + decimal(ps[k] as nat) + "].baseUrl"@,
                    base_url_text(facts.remotes@[ps[k]].base_url),
                ),
        ));
    }
    r
}

/// An end-of-life Node.js runtime is a listing risk in its own right, and is
/// not covered by any questionnaire question.
fn check_runtime_version(code: Option<&CodeAnalysis>) -> (r: Vec<Flag>)
    ensures
        flag_views(r@) == check_runtime_version_spec(
            match code {
                Some(c) => Some(*c),
                None => None,
            },
        ),
{
    let findings = match code {
        Some(c) => c.findings_by(&Checker::RuntimeVersion),
        None => Vec::new(),
    };
    let ghost fs = crate::code_analysis::finding_views(findings@);
    let mut evidence: Vec<Evidence> = Vec::new();
    let mut i: usize = 0;
    while i < findings.len()
        invariant
            i <= findings.len(),
            fs == crate::code_analysis::finding_views(findings@),
            evidence@.len() == i,
            forall|j: int|
                0 <= j < i ==> #[trigger] evidence@[j]@ == cite(fs[j].check_name, fs[j].description),
        decreases findings.len() - i,
    {
        evidence.push(
            Evidence::new(findings[i].check_name.clone(), findings[i].description.clone()),
        );
        i = i + 1;
    }
    proof {
        assert(evidence_views(evidence@) =~= fs.map_values(
            |f: crate::code_analysis::CodeFindingView| cite(f.check_name, f.description),
        ));
    }
    if evidence.len() == 0 {
        return no_flags();
    }
    one_flag(
        RUNTIME_ID,
        ReviewSignal::Warning,
        RUNTIME_TITLE,
        owned(RUNTIME_DETAIL),
        FlagSource::ApprovalGuidelines { criterion: SECURITY_WORKFLOW_CRITERION },
        evidence,
    )
}

fn push_all(out: &mut Vec<Flag>, more: Vec<Flag>)
    ensures
        flag_views(final(out)@) == flag_views(old(out)@) + flag_views(more@),
{
    let ghost a = out@;
    let mut more = more;
    let ghost b = more@;
    out.append(&mut more);
    proof {
        assert(flag_views(out@) =~= flag_views(a) + flag_views(b));
    }
}

/// Append the flags of one severity, in order.
fn push_severity(out: &mut Vec<Flag>, all: &Vec<Flag>, severity: ReviewSignal)
    ensures
        flag_views(final(out)@) == flag_views(old(out)@) + of_severity(flag_views(all@), severity),
{
    let ghost start = flag_views(out@);
    let ghost views = flag_views(all@);
    let mut i: usize = 0;
    while i < all.len()
        invariant
            i <= all.len(),
            views == flag_views(all@),
            flag_views(out@) =~= start + views.take(i as int).filter(
                |f: FlagView| f.severity == severity,
            ),
        decreases all.len() - i,
    {
        proof {
            reveal_with_fuel(Seq::<_>::filter, 1);
            assert(views.take(i + 1).drop_last() =~= views.take(i as int));
        }
        if all[i].severity == severity {
            let ghost before = out@;
            out.push(all[i].copy());
            proof {
                assert(flag_views(out@) =~= flag_views(before).push(all@[i as int]@));
            }
        }
        i = i + 1;
    }
    proof {
        assert(views.take(all.len() as int) =~= views);
    }
}

/// Run every pre-submission check, most severe first.
pub fn check(facts: &ManifestFacts, code: Option<&CodeAnalysis>) -> (r: Vec<Flag>)
    ensures
        flag_views(r@) == check_spec(
            *facts,
            match code {
                Some(c) => Some(*c),
                None => None,
            },
        ),
{
    let mut flags = check_app_name(facts);
    push_all(&mut flags, check_egress(facts));
    push_all(&mut flags, check_content_security(facts));
    push_all(&mut flags, check_remotes(facts));
    push_all(&mut flags, check_runtime_version(code));
    let mut sorted = no_flags();
    push_severity(&mut sorted, &flags, ReviewSignal::Fail);
    push_severity(&mut sorted, &flags, ReviewSignal::Warning);
    push_severity(&mut sorted, &flags, ReviewSignal::Info);
    proof {
        assert(flag_views(sorted@) =~= most_severe_first(flag_views(flags@)));
    }
    sorted
}

// ---------------------------------------------------------------------------
// Laws
// ---------------------------------------------------------------------------

/// The three severity filters of a list of flags share out its flags.
proof fn lemma_severity_filters_partition(v: Seq<FlagView>)
    ensures
        of_severity(v, ReviewSignal::Fail).len() + of_severity(v, ReviewSignal::Warning).len()
            + of_severity(v, ReviewSignal::Info).len() == v.len(),
    decreases v.len(),
{
    reveal_with_fuel(Seq::<_>::filter, 1);
    if v.len() > 0 {
        lemma_severity_filters_partition(v.drop_last());
    }
}

/// Every flag of one severity came from the list it was filtered from.
proof fn lemma_of_severity_members(v: Seq<FlagView>, s: ReviewSignal)
    ensures
        forall|i: int|
            0 <= i < of_severity(v, s).len() ==> (#[trigger] of_severity(v, s)[i]).severity == s
                && v.contains(of_severity(v, s)[i]),
{
    assert forall|i: int| 0 <= i < of_severity(v, s).len() implies (#[trigger] of_severity(
        v,
        s,
    )[i]).severity == s && v.contains(of_severity(v, s)[i]) by {
        v.lemma_filter_pred(|f: FlagView| f.severity == s, i);
        assert(of_severity(v, s).contains(of_severity(v, s)[i]));
        v.lemma_filter_contains_rev(|f: FlagView| f.severity == s, of_severity(v, s)[i]);
    }
}

/// The reported flags are ordered most severe first, and ordering them
/// neither loses nor invents a flag: every check's flags are reported, and
/// only they are.
pub proof fn lemma_flags_are_ordered_and_complete(facts: ManifestFacts, code: Option<CodeAnalysis>)
    ensures
        check_spec(facts, code).len() == all_flags(facts, code).len(),
        forall|i: int|
            0 <= i < check_spec(facts, code).len() ==> all_flags(facts, code).contains(
                #[trigger] check_spec(facts, code)[i],
            ),
        forall|i: int, j: int|
            0 <= i < j < check_spec(facts, code).len() ==> signal_rank(
                #[trigger] check_spec(facts, code)[i].severity,
            ) >= signal_rank(#[trigger] check_spec(facts, code)[j].severity),
{
    let v = all_flags(facts, code);
    let f = of_severity(v, ReviewSignal::Fail);
    let w = of_severity(v, ReviewSignal::Warning);
    let n = of_severity(v, ReviewSignal::Info);
    lemma_severity_filters_partition(v);
    lemma_of_severity_members(v, ReviewSignal::Fail);
    lemma_of_severity_members(v, ReviewSignal::Warning);
    lemma_of_severity_members(v, ReviewSignal::Info);
    let r = check_spec(facts, code);
    assert(r == f + w + n);
    assert forall|i: int| 0 <= i < r.len() implies v.contains(#[trigger] r[i]) && (if i < f.len() {
        r[i].severity == ReviewSignal::Fail
    } else if i < f.len() + w.len() {
        r[i].severity == ReviewSignal::Warning
    } else {
        r[i].severity == ReviewSignal::Info
    }) by {
        if i < f.len() {
            assert(r[i] == f[i]);
        } else if i < f.len() + w.len() {
            assert(r[i] == w[i - f.len()]);
        } else {
            assert(r[i] == n[i - f.len() - w.len()]);
        }
    }
}

/// A name that begins with an Atlassian product name, as a word, is exactly
/// one blocking naming flag, citing the name.
pub proof fn lemma_leading_mark_blocks(facts: ManifestFacts)
    requires
        facts.app_name matches Some(name) && leading_mark_spec(name@) is Some,
    ensures
        check_app_name_spec(facts).len() == 1,
        check_app_name_spec(facts)[0].severity == ReviewSignal::Fail,
        check_app_name_spec(facts)[0].id == PREFIX_ID@,
        check_app_name_spec(facts)[0].evidence == seq![
            cite(APP_NAME_POINTER@, facts.app_name.unwrap()@),
        ],
{
}

/// An app raises at most one naming flag: a missing name is only
/// informational; a name beginning with a mark is blocking (see
/// `lemma_leading_mark_blocks`); otherwise a mark mentioned anywhere but in a
/// trailing "for <mark>" is a warning citing the name, and a name with no such
/// mention raises nothing.
pub proof fn lemma_at_most_one_naming_flag(facts: ManifestFacts)
    ensures
        check_app_name_spec(facts).len() <= 1,
        facts.app_name is None ==> check_app_name_spec(facts).len() == 1
            && check_app_name_spec(facts)[0].id == NAME_MISSING_ID@
            && check_app_name_spec(facts)[0].severity == ReviewSignal::Info
            && check_app_name_spec(facts)[0].evidence.len() == 0,
        facts.app_name matches Some(name) ==> leading_mark_spec(name@) is None ==> {
            &&& (check_app_name_spec(facts).len() == 0 <==> unqualified_mark_spec(name@) is None)
            &&& check_app_name_spec(facts).len() == 1 ==> {
                &&& check_app_name_spec(facts)[0].id == MENTION_ID@
                &&& check_app_name_spec(facts)[0].severity == ReviewSignal::Warning
                &&& check_app_name_spec(facts)[0].evidence == seq![cite(APP_NAME_POINTER@, name@)]
            }
        },
{
}

/// An app raises at most two egress flags: a warning on question 6a citing
/// each overly broad destination in manifest order, exactly when there is one,
/// followed by a blocking flag on question 6b citing each cleartext
/// destination, exactly when there is one.
pub proof fn lemma_egress_flags(facts: ManifestFacts)
    ensures
        ({
            let f = check_egress_spec(facts);
            let broad = facts.overly_broad_positions().len() != 0;
            let clear = facts.cleartext_positions().len() != 0;
            &&& f.len() == (if broad { 1int } else { 0 }) + (if clear { 1int } else { 0 })
            &&& f.len() <= 2
            &&& broad ==> {
                &&& f[0].id == BROAD_ID@
                &&& f[0].severity == ReviewSignal::Warning
                &&& f[0].source == question_source("6a")
                &&& f[0].evidence == facts.overly_broad_positions().map_values(
                    |i: int| cite(facts.external_egress@[i].pointer@, facts.external_egress@[i].value@),
                )
            }
            &&& clear ==> {
                &&& f[f.len() - 1].id == CLEARTEXT_ID@
                &&& f[f.len() - 1].severity == ReviewSignal::Fail
                &&& f[f.len() - 1].source == question_source("6b")
                &&& f[f.len() - 1].evidence == crate::answers::cleartext_citations(facts)
            }
        }),
{
}

/// Among the first `n` marks, the pick is one the name begins with, as long as
/// any other it begins with; there is none only when it begins with none.
proof fn lemma_leading_pick(name: Seq<char>, n: nat)
    requires
        n <= atlassian_marks().len(),
    ensures
        match leading_pick(name, n) {
            Some(j) => {
                &&& 0 <= j < n
                &&& starts_with_word_spec(name, atlassian_marks()[j]@)
                &&& forall|k: int|
                    0 <= k < n && starts_with_word_spec(name, #[trigger] atlassian_marks()[k]@)
                        ==> atlassian_marks()[j]@.len() >= atlassian_marks()[k]@.len()
            },
            None => forall|k: int|
                0 <= k < n ==> !starts_with_word_spec(name, #[trigger] atlassian_marks()[k]@),
        },
    decreases n,
{
    if n > 0 {
        lemma_leading_pick(name, (n - 1) as nat);
    }
}

/// Whatever Atlassian mark an app name begins with as a whole word (ignoring
/// case and surrounding white space), `leading_mark` reports a mark: one the
/// name begins with, and the longest such. It reports none only for a name
/// that begins with no mark at all.
pub proof fn lemma_every_leading_mark_is_reported(name: Seq<char>)
    ensures
        match leading_mark_spec(name) {
            Some(m) => {
                &&& atlassian_marks().contains(m)
                &&& starts_with_word_spec(spec_trim(name), m@)
                &&& forall|k: int|
                    0 <= k < atlassian_marks().len() && starts_with_word_spec(
                        spec_trim(name),
                        #[trigger] atlassian_marks()[k]@,
                    ) ==> m@.len() >= atlassian_marks()[k]@.len()
            },
            None => forall|k: int|
                0 <= k < atlassian_marks().len() ==> !starts_with_word_spec(
                    spec_trim(name),
                    #[trigger] atlassian_marks()[k]@,
                ),
        },
{
    lemma_leading_pick(spec_trim(name), atlassian_marks().len());
    match leading_pick(spec_trim(name), atlassian_marks().len()) {
        Some(j) => {
            assert(atlassian_marks()[j] == leading_mark_spec(name)->0);
        },
        None => {},
    }
}

/// An egress destination that is `*` (any host) or a wildcard over a whole
/// top-level domain such as `*.com` is overly broad: it is among the overly
/// broad positions, question 6a is answered Yes, and the first egress flag is
/// the overly-broad warning. A fixed host, a scoped wildcard such as
/// `*.example.com`, or an interpolated destination is not.
pub proof fn lemma_wildcard_destinations_are_overly_broad(facts: ManifestFacts, k: int)
    requires
        0 <= k < facts.external_egress@.len(),
    ensures
        ({
            let p = facts.external_egress@[k].pattern;
            &&& (p == EgressPattern::AnyHost || p == EgressPattern::WildcardTopLevel) ==> {
                &&& facts.overly_broad_positions().contains(k)
                &&& crate::answers::wildcard_egress_spec(facts).answer == AnswerValueView::Yes
                &&& check_egress_spec(facts)[0].id == BROAD_ID@
                &&& check_egress_spec(facts)[0].severity == ReviewSignal::Warning
            }
            &&& (p == EgressPattern::WildcardScoped || p == EgressPattern::Fixed || p
                == EgressPattern::Interpolated) ==> !facts.overly_broad_positions().contains(k)
        }),
{
    let n = facts.external_egress@.len();
    let all = Seq::new(n, |i: int| i);
    let keep = |i: int| pattern_is_overly_broad(facts.external_egress@[i].pattern);
    assert(facts.overly_broad_positions() == all.filter(keep));
    let p = facts.external_egress@[k].pattern;
    if p == EgressPattern::AnyHost || p == EgressPattern::WildcardTopLevel {
        assert(all[k] == k);
        all.lemma_filter_contains(keep, k);
        assert(facts.overly_broad_positions().len() > 0);
        assert(crate::answers::wildcard_citations(facts).len() > 0);
        lemma_egress_flags(facts);
    } else {
        if facts.overly_broad_positions().contains(k) {
            let j = choose|j: int|
                0 <= j < all.filter(keep).len() && #[trigger] all.filter(keep)[j] == k;
            all.lemma_filter_pred(keep, j);
        }
    }
}

} // verus!
