use std::collections::HashSet;

use forge_approval_template::questionnaire::{
    AnswerKind, AnswerValue, AppType, AskedWhen, Category, NonConforming, Question, ReviewSignal,
};

fn forge() -> Vec<Question> {
    AppType::Forge.questions()
}

#[test]
fn ids_are_unique() {
    let mut seen = HashSet::new();
    for question in forge() {
        assert!(seen.insert(question.id), "duplicate id {}", question.id);
    }
}

#[test]
fn parents_resolve_and_precede_their_children() {
    let mut seen: HashSet<&str> = HashSet::new();
    for question in forge() {
        if let Some(parent) = question.parent {
            assert!(
                seen.contains(parent),
                "{} references parent {parent} which does not precede it",
                question.id
            );
        }
        seen.insert(question.id);
    }
}

#[test]
fn informational_and_free_text_prompts_never_trip_a_signal() {
    for question in forge() {
        if question.signal == ReviewSignal::Info {
            assert!(
                question.nonconforming.is_none(),
                "{} is informational but declares a non-conforming answer",
                question.id
            );
        }
        if matches!(question.kind, AnswerKind::OpenText | AnswerKind::MultiSelect) {
            assert!(
                question.nonconforming.is_none(),
                "{} is free-form but declares a non-conforming answer",
                question.id
            );
        }
    }
}

#[test]
fn every_actionable_question_declares_its_polarity() {
    for question in forge() {
        if question.signal != ReviewSignal::Info
            && matches!(question.kind, AnswerKind::YesNo | AnswerKind::YesNoNotApplicable)
        {
            assert!(
                question.nonconforming.is_some(),
                "{} raises a signal but does not say which answer trips it",
                question.id
            );
        }
    }
}

#[test]
fn transcription_is_complete() {
    // 17 numbered questions, plus 14 conditional sub-questions.
    assert_eq!(forge().len(), 31);
    assert_eq!(
        forge().iter().filter(|q| q.parent.is_none()).count(),
        17
    );
}

// ---------------------------------------------------------------------------
// Further cases
// ---------------------------------------------------------------------------

#[test]
fn lookup_finds_questions_by_id() {
    let q = Question::lookup(AppType::Forge, "6a").expect("6a exists");
    assert_eq!(q.parent, Some("6"));
    assert_eq!(q.category, Category::DataSecurity);
    assert_eq!(q.signal, ReviewSignal::Warning);
    assert!(Question::lookup(AppType::Forge, "99").is_none());
}

#[test]
fn sub_questions_are_asked_on_the_parent_answer_their_wording_names() {
    let top = Question::lookup(AppType::Forge, "1").unwrap();
    assert_eq!(top.asked_when(), None);
    let usual = Question::lookup(AppType::Forge, "2a").unwrap();
    assert_eq!(usual.asked_when(), Some(AskedWhen::ParentIsYes));
    let if_not = Question::lookup(AppType::Forge, "12a-i").unwrap();
    assert_eq!(if_not.asked_when(), Some(AskedWhen::ParentIsNo));
}

#[test]
fn only_the_named_answer_trips_a_signal() {
    assert!(NonConforming::Yes.is_tripped_by(&AnswerValue::Yes));
    assert!(!NonConforming::Yes.is_tripped_by(&AnswerValue::No));
    assert!(NonConforming::No.is_tripped_by(&AnswerValue::No));
    assert!(!NonConforming::No.is_tripped_by(&AnswerValue::Unknown));
    assert!(!NonConforming::No.is_tripped_by(&AnswerValue::NotApplicable));
}

#[test]
fn answers_and_categories_display_as_published() {
    assert_eq!(AnswerValue::NotApplicable.as_display(), "Not Applicable");
    assert_eq!(AnswerValue::Unknown.as_display(), "(unanswered)");
    assert_eq!(AnswerValue::Text("x".to_string()).as_display(), "x");
    assert_eq!(Category::AuthenticationAndAuthorization.title(), "Authentication & Authorization");
    assert_eq!(Category::VulnerabilityManagement.title(), "Vulnerability Management");
}
