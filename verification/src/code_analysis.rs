//! Static analysis results, as far as the approval submission cares about them.
//!
//! A *finding* is good evidence that the app has the problem. A *clean run* is
//! weak evidence of absence. A *checker that did not run* yields nothing at
//! all. [`CodeAnalysis::verdict`] keeps the three apart.
use vstd::prelude::*;

use crate::manifest::{lemma_text_lt_irreflexive, lemma_text_lt_total, lemma_text_lt_transitive, text_lt, text_precedes};
use crate::text::{has_prefix, owned, same_text, starts_with};

verus! {

/// An FSRT checker, identified from the `check_name` of its findings.
#[derive(Debug, Clone, PartialEq, Eq, PartialOrd, Ord, Hash)]
pub enum Checker {
    /// `AuthZChecker`: an authorisation bypass reaching a privileged call.
    Authorization,
    /// `AuthenticateChecker`: a web trigger or webhook without authentication.
    Authentication,
    /// `SecretChecker`: a secret hardcoded in the app's source or manifest.
    HardcodedSecret,
    /// `AuthHeaderChecker`: an Atlassian API or container token used directly.
    AtlassianCredential,
    /// `PermissionChecker`: scopes declared in the manifest but never used.
    LeastPrivilege,
    /// `ForgeRuntimeVersionPolicyChecker`: an end-of-life Node.js runtime.
    RuntimeVersion,
    /// A checker this mapping does not recognise.
    Other(String),
}

/// The mathematical content of a [`Checker`].
pub enum CheckerView {
    Authorization,
    Authentication,
    HardcodedSecret,
    AtlassianCredential,
    LeastPrivilege,
    RuntimeVersion,
    Other(Seq<char>),
}

impl View for Checker {
    type V = CheckerView;

    open spec fn view(&self) -> CheckerView {
        match self {
            Checker::Authorization => CheckerView::Authorization,
            Checker::Authentication => CheckerView::Authentication,
            Checker::HardcodedSecret => CheckerView::HardcodedSecret,
            Checker::AtlassianCredential => CheckerView::AtlassianCredential,
            Checker::LeastPrivilege => CheckerView::LeastPrivilege,
            Checker::RuntimeVersion => CheckerView::RuntimeVersion,
            Checker::Other(name) => CheckerView::Other(name@),
        }
    }
}

pub const AUTHORIZATION_PREFIX: &'static str = "Custom-Check-Authorization-";

pub const AUTHENTICATION_PREFIX: &'static str = "Custom-Check-Authentication-";

/// Also the prefix of the OAuth provider secret name, which therefore lands on
/// the same checker.
pub const HARDCODED_SECRET_PREFIX: &'static str = "Custom-Check-Hardcoded-Secret-";

pub const ATLASSIAN_API_TOKEN: &'static str = "ATLASSIAN_API_TOKEN";

pub const ATLASSIAN_CONTAINER_TOKEN: &'static str = "ATLASSIAN_CONTAINER_TOKEN";

pub const LEAST_PRIVILEGE: &'static str = "Least-Privilege";

pub const RUNTIME_VERSION: &'static str = "Forge Runtime Version Policy Checker";

/// The checker a `check_name` belongs to. Hashed names are matched by prefix,
/// fixed names exactly, and anything else is kept verbatim.
pub open spec fn checker_of(name: Seq<char>) -> CheckerView {
    if has_prefix(name, AUTHORIZATION_PREFIX@) {
        CheckerView::Authorization
    } else if has_prefix(name, AUTHENTICATION_PREFIX@) {
        CheckerView::Authentication
    } else if has_prefix(name, HARDCODED_SECRET_PREFIX@) {
        CheckerView::HardcodedSecret
    } else if name == ATLASSIAN_API_TOKEN@ || name == ATLASSIAN_CONTAINER_TOKEN@ {
        CheckerView::AtlassianCredential
    } else if name == LEAST_PRIVILEGE@ {
        CheckerView::LeastPrivilege
    } else if name == RUNTIME_VERSION@ {
        CheckerView::RuntimeVersion
    } else {
        CheckerView::Other(name)
    }
}

/// How a checker is named in prose.
pub open spec fn checker_display(c: CheckerView) -> Seq<char> {
    match c {
        CheckerView::Authorization => "authorization scanner"@,
        CheckerView::Authentication => "authentication scanner"@,
        CheckerView::HardcodedSecret => "hardcoded secret scanner"@,
        CheckerView::AtlassianCredential => "Atlassian credential scanner"@,
        CheckerView::LeastPrivilege => "least privilege scanner"@,
        CheckerView::RuntimeVersion => "Forge runtime version scanner"@,
        CheckerView::Other(name) => name,
    }
}

impl Checker {
    /// Classify a finding from FSRT's `Vulnerability::check_name()`.
    pub fn from_check_name(check_name: &str) -> (r: Self)
        ensures
            r@ == checker_of(check_name@),
    {
        if starts_with(check_name, AUTHORIZATION_PREFIX) {
            return Checker::Authorization;
        }
        if starts_with(check_name, AUTHENTICATION_PREFIX) {
            return Checker::Authentication;
        }
        if starts_with(check_name, HARDCODED_SECRET_PREFIX) {
            return Checker::HardcodedSecret;
        }
        if same_text(check_name, ATLASSIAN_API_TOKEN) || same_text(
            check_name,
            ATLASSIAN_CONTAINER_TOKEN,
        ) {
            return Checker::AtlassianCredential;
        }
        if same_text(check_name, LEAST_PRIVILEGE) {
            return Checker::LeastPrivilege;
        }
        if same_text(check_name, RUNTIME_VERSION) {
            return Checker::RuntimeVersion;
        }
        Checker::Other(owned(check_name))
    }

    pub fn display(&self) -> (r: &str)
        ensures
            r@ == checker_display(self@),
    {
        match self {
            Checker::Authorization => "authorization scanner",
            Checker::Authentication => "authentication scanner",
            Checker::HardcodedSecret => "hardcoded secret scanner",
            Checker::AtlassianCredential => "Atlassian credential scanner",
            Checker::LeastPrivilege => "least privilege scanner",
            Checker::RuntimeVersion => "Forge runtime version scanner",
            Checker::Other(name) => name.as_str(),
        }
    }

    /// Whether two checkers are the same.
    pub fn same_as(&self, other: &Checker) -> (r: bool)
        ensures
            r == (self@ == other@),
    {
        match (self, other) {
            (Checker::Authorization, Checker::Authorization) => true,
            (Checker::Authentication, Checker::Authentication) => true,
            (Checker::HardcodedSecret, Checker::HardcodedSecret) => true,
            (Checker::AtlassianCredential, Checker::AtlassianCredential) => true,
            (Checker::LeastPrivilege, Checker::LeastPrivilege) => true,
            (Checker::RuntimeVersion, Checker::RuntimeVersion) => true,
            (Checker::Other(a), Checker::Other(b)) => same_text(a.as_str(), b.as_str()),
            _ => false,
        }
    }

    /// A copy of this checker.
    pub fn copy(&self) -> (r: Checker)
        ensures
            r@ == self@,
    {
        match self {
            Checker::Authorization => Checker::Authorization,
            Checker::Authentication => Checker::Authentication,
            Checker::HardcodedSecret => Checker::HardcodedSecret,
            Checker::AtlassianCredential => Checker::AtlassianCredential,
            Checker::LeastPrivilege => Checker::LeastPrivilege,
            Checker::RuntimeVersion => Checker::RuntimeVersion,
            Checker::Other(name) => Checker::Other(name.clone()),
        }
    }
}

/// A single static analysis finding.
#[derive(Debug, Clone, PartialEq, Eq)]
pub struct CodeFinding {
    pub checker: Checker,
    /// FSRT's raw `check_name`, so a finding can be traced back to its report.
    pub check_name: String,
    pub description: String,
}

/// The mathematical content of a [`CodeFinding`].
pub struct CodeFindingView {
    pub checker: CheckerView,
    pub check_name: Seq<char>,
    pub description: Seq<char>,
}

impl View for CodeFinding {
    type V = CodeFindingView;

    open spec fn view(&self) -> CodeFindingView {
        CodeFindingView {
            checker: self.checker@,
            check_name: self.check_name@,
            description: self.description@,
        }
    }
}

/// The finding a `(check_name, description)` pair becomes.
pub open spec fn finding_of(check_name: Seq<char>, description: Seq<char>) -> CodeFindingView {
    CodeFindingView { checker: checker_of(check_name), check_name, description }
}

impl CodeFinding {
    pub fn new(check_name: String, description: String) -> (r: Self)
        ensures
            r@ == finding_of(check_name@, description@),
    {
        let checker = Checker::from_check_name(check_name.as_str());
        CodeFinding { checker, check_name, description }
    }

    /// A copy of this finding.
    pub fn copy(&self) -> (r: Self)
        ensures
            r@ == self@,
    {
        CodeFinding {
            checker: self.checker.copy(),
            check_name: self.check_name.clone(),
            description: self.description.clone(),
        }
    }
}

/// What a scan of the app's source found.
#[derive(Debug, Clone, PartialEq, Eq)]
pub struct CodeAnalysis {
    /// Checkers that actually ran, as a set: order and repetition carry no
    /// meaning. A clean result only means something for these.
    pub checkers_run: Vec<Checker>,
    pub findings: Vec<CodeFinding>,
}

/// What a scan concluded about one checker's concern.
#[derive(Debug, Clone, Copy, PartialEq, Eq, Structural)]
pub enum Verdict {
    /// The checker did not run, so nothing can be concluded.
    NotRun,
    /// The checker ran and found nothing. Weak evidence of absence.
    Clean,
    /// The checker found problems. Good evidence of presence.
    Found,
}

/// The views of a sequence of findings.
pub open spec fn finding_views(v: Seq<CodeFinding>) -> Seq<CodeFindingView> {
    v.map_values(|f: CodeFinding| f@)
}

/// The findings of one checker, in the order they came in.
pub open spec fn findings_of(v: Seq<CodeFinding>, c: CheckerView) -> Seq<CodeFindingView> {
    finding_views(v).filter(|f: CodeFindingView| f.checker == c)
}

/// The views of a list of checkers.
pub open spec fn checker_views(v: Seq<Checker>) -> Seq<CheckerView> {
    v.map_values(|c: Checker| c@)
}

/// The position of a checker's variant in the declaration of [`Checker`].
pub open spec fn checker_rank(c: CheckerView) -> int {
    match c {
        CheckerView::Authorization => 0,
        CheckerView::Authentication => 1,
        CheckerView::HardcodedSecret => 2,
        CheckerView::AtlassianCredential => 3,
        CheckerView::LeastPrivilege => 4,
        CheckerView::RuntimeVersion => 5,
        CheckerView::Other(_) => 6,
    }
}

/// `a` precedes `b` in the order `derive(Ord)` gives [`Checker`]: by variant,
/// then an `Other`'s name character by character.
pub open spec fn checker_lt(a: CheckerView, b: CheckerView) -> bool {
    ||| checker_rank(a) < checker_rank(b)
    ||| (a matches CheckerView::Other(x) && b matches CheckerView::Other(y) && text_lt(x, y))
}

/// Each checker precedes the next.
pub open spec fn checkers_ascending(s: Seq<CheckerView>) -> bool {
    forall|i: int, j: int| 0 <= i < j < s.len() ==> checker_lt(s[i], s[j])
}

/// The order on checkers is a strict total order.
pub proof fn lemma_checker_order(a: CheckerView, b: CheckerView, c: CheckerView)
    ensures
        !checker_lt(a, a),
        checker_lt(a, b) && checker_lt(b, c) ==> checker_lt(a, c),
        a != b ==> checker_lt(a, b) || checker_lt(b, a),
{
    if let CheckerView::Other(x) = a {
        lemma_text_lt_irreflexive(x);
        if let CheckerView::Other(y) = b {
            if x != y {
                lemma_text_lt_total(x, y);
            }
            if let CheckerView::Other(z) = c {
                if text_lt(x, y) && text_lt(y, z) {
                    lemma_text_lt_transitive(x, y, z);
                }
            }
        }
    }
}

/// The position of a checker's variant in its declaration.
fn checker_rank_of(c: &Checker) -> (r: u8)
    ensures
        r as int == checker_rank(c@),
{
    match c {
        Checker::Authorization => 0,
        Checker::Authentication => 1,
        Checker::HardcodedSecret => 2,
        Checker::AtlassianCredential => 3,
        Checker::LeastPrivilege => 4,
        Checker::RuntimeVersion => 5,
        Checker::Other(_) => 6,
    }
}

/// Whether `a` precedes `b` in the order `derive(Ord)` gives checkers.
fn checker_precedes(a: &Checker, b: &Checker) -> (r: bool)
    ensures
        r == checker_lt(a@, b@),
{
    let ra = checker_rank_of(a);
    let rb = checker_rank_of(b);
    if ra != rb {
        return ra < rb;
    }
    match (a, b) {
        (Checker::Other(x), Checker::Other(y)) => text_precedes(x.as_str(), y.as_str()),
        _ => false,
    }
}

/// Insert `c` into a strictly ascending list, unless it is there already.
fn insert_checker(out: &mut Vec<Checker>, c: Checker)
    requires
        checkers_ascending(checker_views(old(out)@)),
    ensures
        checkers_ascending(checker_views(final(out)@)),
        forall|q: CheckerView|
            checker_views(final(out)@).contains(q) <==> (checker_views(old(out)@).contains(q) || q
                == c@),
{
    let ghost olds = checker_views(out@);
    let mut j: usize = 0;
    while j < out.len() && checker_precedes(&out[j], &c)
        invariant
            j <= out.len(),
            olds == checker_views(out@),
            checkers_ascending(olds),
            forall|k: int| 0 <= k < j ==> checker_lt(#[trigger] olds[k], c@),
        decreases out.len() - j,
    {
        j = j + 1;
    }
    if j < out.len() && out[j].same_as(&c) {
        proof {
            assert forall|q: CheckerView| checker_views(out@).contains(q) <==> (olds.contains(q)
                || q == c@) by {
                if q == c@ {
                    assert(olds[j as int] == q);
                }
            }
        }
        return;
    }
    let ghost cv = c@;
    proof {
        assert forall|k: int| j <= k < olds.len() implies checker_lt(cv, #[trigger] olds[k]) by {
            lemma_checker_order(cv, olds[j as int], olds[k]);
            lemma_checker_order(olds[j as int], cv, olds[k]);
        }
    }
    out.insert(j, c);
    proof {
        let news = checker_views(out@);
        assert(news =~= olds.insert(j as int, cv));
        assert forall|a: int, b: int| 0 <= a < b < news.len() implies checker_lt(news[a], news[b]) by {
            if a < j && b > j {
                lemma_checker_order(olds[a], cv, olds[b - 1]);
            }
        }
        assert forall|q: CheckerView| news.contains(q) <==> (olds.contains(q) || q == cv) by {
            if news.contains(q) {
                let k = choose|k: int| 0 <= k < news.len() && news[k] == q;
                if k < j {
                    assert(olds[k] == q);
                } else if k > j {
                    assert(olds[k - 1] == q);
                }
            }
            if olds.contains(q) {
                let k = choose|k: int| 0 <= k < olds.len() && olds[k] == q;
                if k < j {
                    assert(news[k] == q);
                } else {
                    assert(news[k + 1] == q);
                }
            }
            if q == cv {
                assert(news[j as int] == q);
            }
        }
    }
}

/// The checkers of a list as a set: each once, in the order `derive(Ord)`
/// gives [`Checker`].
fn checker_set(v: Vec<Checker>) -> (r: Vec<Checker>)
    ensures
        checkers_ascending(checker_views(r@)),
        forall|c: CheckerView| checker_views(r@).contains(c) <==> checker_views(v@).contains(c),
{
    let ghost all = checker_views(v@);
    let mut out: Vec<Checker> = Vec::new();
    let mut i: usize = 0;
    while i < v.len()
        invariant
            i <= v.len(),
            all == checker_views(v@),
            checkers_ascending(checker_views(out@)),
            forall|c: CheckerView| checker_views(out@).contains(c) <==> all.take(i as int).contains(c),
        decreases v.len() - i,
    {
        let c = v[i].copy();
        insert_checker(&mut out, c);
        proof {
            assert forall|q: CheckerView| checker_views(out@).contains(q) <==> all.take(i + 1).contains(q) by {
                if all.take(i + 1).contains(q) {
                    let k = choose|k: int| 0 <= k < all.take(i + 1).len() && #[trigger] all.take(i + 1)[k] == q;
                    if k < i {
                        assert(all.take(i as int)[k] == q);
                    }
                }
                if all.take(i as int).contains(q) {
                    let k = choose|k: int| 0 <= k < all.take(i as int).len() && #[trigger] all.take(i as int)[k] == q;
                    assert(all.take(i + 1)[k] == q);
                }
                if q == all[i as int] {
                    assert(all.take(i + 1)[i as int] == q);
                }
            }
        }
        i = i + 1;
    }
    proof {
        assert(all.take(v.len() as int) =~= all);
    }
    out
}

impl CodeAnalysis {
    /// Whether `checker` is among the checkers that ran.
    pub open spec fn ran_spec(self, checker: CheckerView) -> bool {
        exists|i: int| 0 <= i < self.checkers_run@.len() && #[trigger] self.checkers_run@[i]@ == checker
    }

    /// The checkers that ran are a set: each once, in the order `derive(Ord)`
    /// gives [`Checker`].
    pub open spec fn wf(self) -> bool {
        checkers_ascending(checker_views(self.checkers_run@))
    }

    /// What the scan concluded about a checker's concern.
    pub open spec fn verdict_spec(self, checker: CheckerView) -> Verdict {
        if findings_of(self.findings@, checker).len() > 0 {
            Verdict::Found
        } else if !self.ran_spec(checker) {
            Verdict::NotRun
        } else {
            Verdict::Clean
        }
    }

    /// A scan result whose checkers are kept as the set they are: each once,
    /// in the order `derive(Ord)` gives [`Checker`].
    pub fn new(checkers_run: Vec<Checker>, findings: Vec<CodeFinding>) -> (r: Self)
        ensures
            r.wf(),
            forall|c: CheckerView|
                checker_views(r.checkers_run@).contains(c) <==> checker_views(checkers_run@).contains(c),
            r.findings == findings,
    {
        CodeAnalysis { checkers_run: checker_set(checkers_run), findings }
    }

    /// Build from `(check_name, description)` pairs.
    pub fn from_findings(checkers_run: Vec<Checker>, findings: Vec<(String, String)>) -> (r: Self)
        ensures
            r.wf(),
            forall|c: CheckerView|
                checker_views(r.checkers_run@).contains(c) <==> checker_views(checkers_run@).contains(c),
            finding_views(r.findings@) == findings@.map_values(
                |p: (String, String)| finding_of(p.0@, p.1@),
            ),
    {
        let mut out: Vec<CodeFinding> = Vec::new();
        let mut i: usize = 0;
        while i < findings.len()
            invariant
                i <= findings.len(),
                out@.len() == i,
                forall|j: int|
                    0 <= j < i ==> #[trigger] out@[j]@ == finding_of(
                        findings@[j].0@,
                        findings@[j].1@,
                    ),
            decreases findings.len() - i,
        {
            let pair = &findings[i];
            out.push(CodeFinding::new(pair.0.clone(), pair.1.clone()));
            i = i + 1;
        }
        proof {
            assert(finding_views(out@) =~= findings@.map_values(
                |p: (String, String)| finding_of(p.0@, p.1@),
            ));
        }
        CodeAnalysis { checkers_run: checker_set(checkers_run), findings: out }
    }

    pub fn ran(&self, checker: &Checker) -> (r: bool)
        ensures
            r == self.ran_spec(checker@),
    {
        let mut i: usize = 0;
        while i < self.checkers_run.len()
            invariant
                i <= self.checkers_run.len(),
                forall|j: int| 0 <= j < i ==> #[trigger] self.checkers_run@[j]@ != checker@,
            decreases self.checkers_run.len() - i,
        {
            if self.checkers_run[i].same_as(checker) {
                return true;
            }
            i = i + 1;
        }
        false
    }

    /// The findings reported by one checker, in the order they came in.
    pub fn findings_by(&self, checker: &Checker) -> (r: Vec<CodeFinding>)
        ensures
            finding_views(r@) == findings_of(self.findings@, checker@),
    {
        let ghost c = checker@;
        let ghost all = finding_views(self.findings@);
        let mut out: Vec<CodeFinding> = Vec::new();
        let mut i: usize = 0;
        while i < self.findings.len()
            invariant
                i <= self.findings.len(),
                c == checker@,
                all == finding_views(self.findings@),
                finding_views(out@) =~= all.take(i as int).filter(
                    |f: CodeFindingView| f.checker == c,
                ),
            decreases self.findings.len() - i,
        {
            proof {
                reveal_with_fuel(Seq::<_>::filter, 1);
                assert(all.take(i + 1).drop_last() =~= all.take(i as int));
            }
            if self.findings[i].checker.same_as(checker) {
                out.push(self.findings[i].copy());
            }
            i = i + 1;
        }
        proof {
            assert(all.take(self.findings.len() as int) =~= all);
        }
        out
    }

    /// What the scan concluded about a checker's concern.
    ///
    /// A finding is treated as proof the checker ran, even if the caller did
    /// not list it in [`Self::checkers_run`].
    pub fn verdict(&self, checker: &Checker) -> (r: Verdict)
        ensures
            r == self.verdict_spec(checker@),
    {
        if self.findings_by(checker).len() > 0 {
            return Verdict::Found;
        }
        if !self.ran(checker) {
            return Verdict::NotRun;
        }
        Verdict::Clean
    }
}

impl Default for CodeAnalysis {
    fn default() -> (r: Self)
        ensures
            r.checkers_run@.len() == 0,
            r.findings@.len() == 0,
    {
        CodeAnalysis { checkers_run: Vec::new(), findings: Vec::new() }
    }
}

/// A finding settles the verdict whatever the caller says ran; without one, a
/// clean verdict needs the checker to have run.
pub proof fn lemma_verdict_reads_findings_first(analysis: CodeAnalysis, checker: CheckerView)
    ensures
        (analysis.verdict_spec(checker) == Verdict::Found) == (exists|i: int|
            0 <= i < analysis.findings@.len() && #[trigger] analysis.findings@[i].checker@
                == checker),
        analysis.verdict_spec(checker) == Verdict::Clean ==> analysis.ran_spec(checker),
        analysis.verdict_spec(checker) == Verdict::NotRun ==> !analysis.ran_spec(checker),
{
    let all = finding_views(analysis.findings@);
    let sel = |f: CodeFindingView| f.checker == checker;
    if exists|i: int| 0 <= i < analysis.findings@.len() && #[trigger] analysis.findings@[i].checker@
        == checker {
        let i = choose|i: int|
            0 <= i < analysis.findings@.len() && #[trigger] analysis.findings@[i].checker@
                == checker;
        assert(sel(all[i]));
        all.lemma_filter_contains(sel, i);
    }
    if findings_of(analysis.findings@, checker).len() > 0 {
        let f = all.filter(sel)[0];
        all.lemma_filter_pred(sel, 0);
        assert(all.filter(sel).contains(f));
        all.lemma_filter_contains_rev(sel, f);
        let j = choose|j: int| 0 <= j < all.len() && all[j] == f;
        assert(analysis.findings@[j].checker@ == checker);
    }
}

} // verus!
