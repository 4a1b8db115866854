use forge_approval_template::evidence::{Basis, Evidence};
use forge_approval_template::facts::Located;

#[test]
fn only_deterministic_values_skip_confirmation() {
    assert!(!Basis::Deterministic.requires_confirmation());
    assert!(Basis::Heuristic.requires_confirmation());
    assert!(Basis::RequiresCodeReview.requires_confirmation());
    assert!(Basis::RequiresPartnerInput.requires_confirmation());
}

#[test]
fn weaker_of_prefers_the_less_certain_basis() {
    assert_eq!(
        Basis::Deterministic.weaker_of(Basis::Heuristic),
        Basis::Heuristic
    );
    assert_eq!(
        Basis::Heuristic.weaker_of(Basis::Deterministic),
        Basis::Heuristic
    );
    assert_eq!(
        Basis::Deterministic.weaker_of(Basis::Deterministic),
        Basis::Deterministic
    );
    assert_eq!(
        Basis::Heuristic.weaker_of(Basis::RequiresPartnerInput),
        Basis::RequiresPartnerInput
    );
}

#[test]
fn deferred_bases_are_not_derived() {
    assert!(Basis::Deterministic.is_derived());
    assert!(Basis::Heuristic.is_derived());
    assert!(!Basis::RequiresCodeReview.is_derived());
    assert!(!Basis::RequiresPartnerInput.is_derived());
}

// ---------------------------------------------------------------------------
// Further cases
// ---------------------------------------------------------------------------

#[test]
fn weaker_of_is_commutative_and_associative_on_every_pair() {
    let all = [
        Basis::Deterministic,
        Basis::Heuristic,
        Basis::RequiresCodeReview,
        Basis::RequiresPartnerInput,
    ];
    for a in all {
        for b in all {
            assert_eq!(a.weaker_of(b), b.weaker_of(a));
            for c in all {
                assert_eq!(a.weaker_of(b).weaker_of(c), a.weaker_of(b.weaker_of(c)));
            }
        }
    }
}

#[test]
fn labels_name_the_basis() {
    assert_eq!(Basis::Deterministic.label(), "read from manifest");
    assert_eq!(Basis::Heuristic.label(), "inferred from manifest");
    assert_eq!(Basis::RequiresCodeReview.label(), "needs code review");
    assert_eq!(Basis::RequiresPartnerInput.label(), "needs partner input");
}

#[test]
fn evidence_cites_a_located_fact() {
    let located = Located::new("modules.webtrigger[0].key".to_string(), "hook".to_string());
    let evidence = Evidence::from_located(&located);
    assert_eq!(evidence.pointer, "modules.webtrigger[0].key");
    assert_eq!(evidence.value, "hook");
    assert_eq!(Evidence::new("a".to_string(), "b".to_string()).value, "b");
}
