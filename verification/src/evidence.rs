//! Where a pre-filled value came from, and how much to trust it.
use vstd::prelude::*;

use crate::facts::Located;

verus! {

/// A citation supporting a pre-filled value.
///
/// Every derived answer carries its evidence, so that a partner or an auditor
/// can follow [`Self::pointer`] straight to the manifest line it was read from.
#[derive(Debug, Clone, PartialEq, Eq)]
pub struct Evidence {
    /// Dotted path into the manifest, e.g. `permissions.external.fetch.client[0]`.
    pub pointer: String,
    /// The value found there.
    pub value: String,
}

/// The mathematical content of an [`Evidence`].
pub struct EvidenceView {
    pub pointer: Seq<char>,
    pub value: Seq<char>,
}

impl View for Evidence {
    type V = EvidenceView;

    open spec fn view(&self) -> EvidenceView {
        EvidenceView { pointer: self.pointer@, value: self.value@ }
    }
}

/// The views of a sequence of citations.
pub open spec fn evidence_views(v: Seq<Evidence>) -> Seq<EvidenceView> {
    v.map_values(|e: Evidence| e@)
}

/// A citation made of a pointer and a value.
pub open spec fn cite(pointer: Seq<char>, value: Seq<char>) -> EvidenceView {
    EvidenceView { pointer, value }
}

impl Evidence {
    pub fn new(pointer: String, value: String) -> (r: Self)
        ensures
            r@ == cite(pointer@, value@),
    {
        Evidence { pointer, value }
    }

    /// The citation for a located fact.
    pub fn from_located(located: &Located<String>) -> (r: Self)
        ensures
            r@ == cite(located.pointer@, located.value@),
    {
        Evidence { pointer: located.pointer.clone(), value: located.value.clone() }
    }

    /// A copy of this citation.
    pub fn copy(&self) -> (r: Self)
        ensures
            r@ == self@,
    {
        Evidence { pointer: self.pointer.clone(), value: self.value.clone() }
    }
}

/// An empty list of citations.
pub fn no_evidence() -> (r: Vec<Evidence>)
    ensures
        evidence_views(r@) == Seq::<EvidenceView>::empty(),
{
    let r = Vec::new();
    proof {
        assert(evidence_views(r@) =~= Seq::<EvidenceView>::empty());
    }
    r
}

/// A copy of every citation in a list.
pub fn copy_all(v: &Vec<Evidence>) -> (r: Vec<Evidence>)
    ensures
        evidence_views(r@) == evidence_views(v@),
{
    let mut out: Vec<Evidence> = Vec::new();
    let mut i: usize = 0;
    while i < v.len()
        invariant
            i <= v.len(),
            out@.len() == i,
            forall|j: int| 0 <= j < i ==> #[trigger] out@[j]@ == v@[j]@,
        decreases v.len() - i,
    {
        out.push(v[i].copy());
        i = i + 1;
    }
    proof {
        assert(evidence_views(out@) =~= evidence_views(v@));
    }
    out
}

/// How a value was arrived at.
///
/// Auto-answering a questionnaire that a partner then attests to is only safe
/// if the partner can see which answers were *read* and which were *guessed*,
/// so the basis travels with every answer and drives
/// [`Self::requires_confirmation`].
#[derive(Debug, Clone, Copy, PartialEq, Eq, Structural, PartialOrd, Ord, Hash)]
pub enum Basis {
    /// Read directly out of the manifest. No inference.
    Deterministic,
    /// Inferred from manifest signals.
    Heuristic,
    /// Not answerable from the manifest; needs static analysis of the source.
    RequiresCodeReview,
    /// Not answerable from any app artefact.
    RequiresPartnerInput,
}

/// The position of a basis in the order from most to least certain.
pub open spec fn basis_rank(b: Basis) -> nat {
    match b {
        Basis::Deterministic => 0,
        Basis::Heuristic => 1,
        Basis::RequiresCodeReview => 2,
        Basis::RequiresPartnerInput => 3,
    }
}

/// The less certain of two bases.
pub open spec fn weaker_basis(a: Basis, b: Basis) -> Basis {
    if basis_rank(a) >= basis_rank(b) {
        a
    } else {
        b
    }
}

/// The label a basis is shown with.
pub open spec fn basis_label_text(b: Basis) -> Seq<char> {
    match b {
        Basis::Deterministic => "read from manifest"@,
        Basis::Heuristic => "inferred from manifest"@,
        Basis::RequiresCodeReview => "needs code review"@,
        Basis::RequiresPartnerInput => "needs partner input"@,
    }
}

impl Basis {
    /// Whether the partner must confirm the value before submitting.
    ///
    /// Only [`Self::Deterministic`] values are safe to submit unreviewed.
    pub fn requires_confirmation(self) -> (r: bool)
        ensures
            r == (self != Basis::Deterministic),
    {
        !matches!(self, Basis::Deterministic)
    }

    /// Whether this basis produced an actual value, as opposed to deferring.
    pub fn is_derived(self) -> (r: bool)
        ensures
            r == (self == Basis::Deterministic || self == Basis::Heuristic),
    {
        matches!(self, Basis::Deterministic | Basis::Heuristic)
    }

    /// The less certain of two bases.
    pub fn weaker_of(self, other: Self) -> (r: Self)
        ensures
            r == weaker_basis(self, other),
    {
        let a: u8 = match self {
            Basis::Deterministic => 0,
            Basis::Heuristic => 1,
            Basis::RequiresCodeReview => 2,
            Basis::RequiresPartnerInput => 3,
        };
        let b: u8 = match other {
            Basis::Deterministic => 0,
            Basis::Heuristic => 1,
            Basis::RequiresCodeReview => 2,
            Basis::RequiresPartnerInput => 3,
        };
        if a >= b {
            self
        } else {
            other
        }
    }

    pub fn label(self) -> (r: &'static str)
        ensures
            r@ == basis_label_text(self),
    {
        match self {
            Basis::Deterministic => "read from manifest",
            Basis::Heuristic => "inferred from manifest",
            Basis::RequiresCodeReview => "needs code review",
            Basis::RequiresPartnerInput => "needs partner input",
        }
    }
}

/// Combining bases does not depend on their order.
pub proof fn lemma_weaker_of_commutes(a: Basis, b: Basis)
    ensures
        weaker_basis(a, b) == weaker_basis(b, a),
{
}

/// Combining three bases does not depend on how they are grouped.
pub proof fn lemma_weaker_of_associates(a: Basis, b: Basis, c: Basis)
    ensures
        weaker_basis(weaker_basis(a, b), c) == weaker_basis(a, weaker_basis(b, c)),
{
}

/// A conclusion is never more certain than either basis it was built on, and
/// it is one of them.
pub proof fn lemma_weaker_of_is_an_upper_bound(a: Basis, b: Basis)
    ensures
        basis_rank(a) <= basis_rank(weaker_basis(a, b)),
        basis_rank(b) <= basis_rank(weaker_basis(a, b)),
        weaker_basis(a, b) == a || weaker_basis(a, b) == b,
        weaker_basis(a, a) == a,
        weaker_basis(Basis::Deterministic, a) == a,
{
}

/// A combined conclusion needs confirmation exactly when one of its bases
/// does, and is a real value exactly when both of its bases are.
pub proof fn lemma_weaker_of_keeps_uncertainty(a: Basis, b: Basis)
    ensures
        (weaker_basis(a, b) != Basis::Deterministic) == (a != Basis::Deterministic || b
            != Basis::Deterministic),
        (weaker_basis(a, b) == Basis::Deterministic || weaker_basis(a, b) == Basis::Heuristic)
            == ((a == Basis::Deterministic || a == Basis::Heuristic) && (b
            == Basis::Deterministic || b == Basis::Heuristic)),
{
}

} // verus!
