//! The Marketplace security questionnaire, encoded as data.
//!
//! Transcribed from the public Atlassian developer documentation
//! (<https://developer.atlassian.com/platform/marketplace/app-security-questionnaires/>,
//! page stamped Jul 16, 2025). Only the Forge questionnaire is encoded.
//!
//! The published table pairs each question with a review signal but does not
//! say which answer trips it. That polarity ([`Question::nonconforming`]) is
//! recorded explicitly per question so that it can be audited.
use vstd::prelude::*;

verus! {

/// Which Marketplace questionnaire a report targets.
#[derive(Debug, Clone, Copy, PartialEq, Eq, Structural)]
pub enum AppType {
    Forge,
}

impl AppType {
    /// The questionnaire published for this app type.
    pub fn questions(self) -> (r: Vec<Question>)
        ensures
            r@ == forge_questionnaire(),
    {
        forge_questions()
    }
}

/// The category headings used by the published questionnaire tables.
#[derive(Debug, Clone, Copy, PartialEq, Eq, Structural)]
pub enum Category {
    AuthenticationAndAuthorization,
    DataSecurity,
    ApplicationSecurity,
    SecretsManagement,
    VulnerabilityManagement,
}

/// The heading a category is shown under.
pub open spec fn category_title(c: Category) -> Seq<char> {
    match c {
        Category::AuthenticationAndAuthorization => "Authentication & Authorization"@,
        Category::DataSecurity => "Data Security"@,
        Category::ApplicationSecurity => "Application Security"@,
        Category::SecretsManagement => "Secrets Management"@,
        Category::VulnerabilityManagement => "Vulnerability Management"@,
    }
}

impl Category {
    pub fn title(self) -> (r: &'static str)
        ensures
            r@ == category_title(self),
    {
        match self {
            Category::AuthenticationAndAuthorization => "Authentication & Authorization",
            Category::DataSecurity => "Data Security",
            Category::ApplicationSecurity => "Application Security",
            Category::SecretsManagement => "Secrets Management",
            Category::VulnerabilityManagement => "Vulnerability Management",
        }
    }
}

/// The documented consequence of answering a question against Atlassian
/// standards, from least to most severe.
#[derive(Debug, Clone, Copy, PartialEq, Eq, Structural, PartialOrd, Ord, Hash)]
pub enum ReviewSignal {
    /// Informational. No action needed; does not block listing.
    Info,
    /// Security concern; a recommendation is provided. Does not block listing.
    Warning,
    /// Security violation that must be addressed. Blocks listing.
    Fail,
}

/// The severity of a signal as a number; higher is more severe.
pub open spec fn signal_rank(s: ReviewSignal) -> nat {
    match s {
        ReviewSignal::Info => 0,
        ReviewSignal::Warning => 1,
        ReviewSignal::Fail => 2,
    }
}

/// The icon the documentation uses for a signal.
pub open spec fn signal_icon(s: ReviewSignal) -> Seq<char> {
    match s {
        ReviewSignal::Info => "i"@,
        ReviewSignal::Warning => "!"@,
        ReviewSignal::Fail => "X"@,
    }
}

impl ReviewSignal {
    /// The icon the documentation uses for this signal.
    pub fn icon(self) -> (r: &'static str)
        ensures
            r@ == signal_icon(self),
    {
        match self {
            ReviewSignal::Info => "i",
            ReviewSignal::Warning => "!",
            ReviewSignal::Fail => "X",
        }
    }
}

/// The answer shape a question accepts.
#[derive(Debug, Clone, Copy, PartialEq, Eq, Structural)]
pub enum AnswerKind {
    /// Yes / No.
    YesNo,
    /// Yes / No / Not Applicable.
    YesNoNotApplicable,
    /// Free text.
    OpenText,
    /// Select any of a fixed set of options.
    MultiSelect,
}

/// A value a question can be answered with.
#[derive(Debug, Clone, PartialEq, Eq)]
pub enum AnswerValue {
    Yes,
    No,
    NotApplicable,
    /// Free-text answer.
    Text(String),
    /// The tool could not determine an answer. The partner must supply one.
    Unknown,
}

/// The mathematical content of an [`AnswerValue`].
pub enum AnswerValueView {
    Yes,
    No,
    NotApplicable,
    Text(Seq<char>),
    Unknown,
}

impl View for AnswerValue {
    type V = AnswerValueView;

    open spec fn view(&self) -> AnswerValueView {
        match self {
            AnswerValue::Yes => AnswerValueView::Yes,
            AnswerValue::No => AnswerValueView::No,
            AnswerValue::NotApplicable => AnswerValueView::NotApplicable,
            AnswerValue::Text(t) => AnswerValueView::Text(t@),
            AnswerValue::Unknown => AnswerValueView::Unknown,
        }
    }
}

/// How an answer is displayed.
pub open spec fn answer_display(a: AnswerValueView) -> Seq<char> {
    match a {
        AnswerValueView::Yes => "Yes"@,
        AnswerValueView::No => "No"@,
        AnswerValueView::NotApplicable => "Not Applicable"@,
        AnswerValueView::Text(t) => t,
        AnswerValueView::Unknown => "(unanswered)"@,
    }
}

impl AnswerValue {
    pub fn as_display(&self) -> (r: &str)
        ensures
            r@ == answer_display(self@),
    {
        match self {
            AnswerValue::Yes => "Yes",
            AnswerValue::No => "No",
            AnswerValue::NotApplicable => "Not Applicable",
            AnswerValue::Text(text) => text.as_str(),
            AnswerValue::Unknown => "(unanswered)",
        }
    }

    /// A copy of this answer.
    pub fn copy(&self) -> (r: Self)
        ensures
            r@ == self@,
    {
        match self {
            AnswerValue::Yes => AnswerValue::Yes,
            AnswerValue::No => AnswerValue::No,
            AnswerValue::NotApplicable => AnswerValue::NotApplicable,
            AnswerValue::Text(text) => AnswerValue::Text(text.clone()),
            AnswerValue::Unknown => AnswerValue::Unknown,
        }
    }
}

/// A single published question.
#[derive(Debug, Clone, Copy, PartialEq, Eq)]
pub struct Question {
    /// Stable identifier, mirroring the numbering of the published table.
    pub id: &'static str,
    /// The sub-question's parent, if any. Sub-questions are conditional.
    pub parent: Option<&'static str>,
    pub category: Category,
    /// The question text, transcribed verbatim minus the answer-shape suffix.
    pub prompt: &'static str,
    pub kind: AnswerKind,
    pub signal: ReviewSignal,
    /// The answer that trips [`Self::signal`]; an interpretation, not published.
    pub nonconforming: Option<NonConforming>,
}

/// The answer that trips a question's review signal.
#[derive(Debug, Clone, Copy, PartialEq, Eq, Structural)]
pub enum NonConforming {
    Yes,
    No,
}

/// Whether `answer` is the non-conforming response.
pub open spec fn tripped_by(bad: NonConforming, answer: AnswerValueView) -> bool {
    (bad == NonConforming::Yes && answer is Yes) || (bad == NonConforming::No && answer is No)
}

impl NonConforming {
    /// Whether `answer` is the non-conforming response.
    pub fn is_tripped_by(self, answer: &AnswerValue) -> (r: bool)
        ensures
            r == tripped_by(self, answer@),
    {
        match (self, answer) {
            (NonConforming::Yes, AnswerValue::Yes) => true,
            (NonConforming::No, AnswerValue::No) => true,
            _ => false,
        }
    }
}

/// The parent answer that causes a sub-question to be asked.
#[derive(Debug, Clone, Copy, PartialEq, Eq, Structural)]
pub enum AskedWhen {
    /// The usual case: the published wording begins "If yes, ...".
    ParentIsYes,
    /// The published wording begins "If not, ...".
    ParentIsNo,
}

/// The one sub-question whose published wording begins "If not, ...", and
/// which is therefore asked when its parent is answered `No`.
pub const ASKED_WHEN_PARENT_IS_NO: &'static str = "12a-i";

/// When a question is asked: `None` for top-level questions.
pub open spec fn asked_when_spec(q: Question) -> Option<AskedWhen> {
    if q.parent is None {
        None
    } else if q.id@ == ASKED_WHEN_PARENT_IS_NO@ {
        Some(AskedWhen::ParentIsNo)
    } else {
        Some(AskedWhen::ParentIsYes)
    }
}

/// The first position in `qs` of a question with the given id.
pub open spec fn position_of_id(qs: Seq<Question>, id: Seq<char>, from: int) -> Option<int>
    decreases qs.len() - from,
{
    if from < 0 || from >= qs.len() {
        None
    } else if qs[from].id@ == id {
        Some(from)
    } else {
        position_of_id(qs, id, from + 1)
    }
}

impl Question {
    /// Look up a question by [`Self::id`] within an app type's questionnaire.
    pub fn lookup(app_type: AppType, id: &str) -> (r: Option<Question>)
        ensures
            match position_of_id(forge_questionnaire(), id@, 0) {
                Some(i) => r == Some(forge_questionnaire()[i]),
                None => r is None,
            },
    {
        let questions = app_type.questions();
        let mut i: usize = 0;
        while i < questions.len()
            invariant
                questions@ == forge_questionnaire(),
                i <= questions.len(),
                position_of_id(forge_questionnaire(), id@, 0) == position_of_id(
                    forge_questionnaire(),
                    id@,
                    i as int,
                ),
            decreases questions.len() - i,
        {
            if crate::text::same_text(questions[i].id, id) {
                return Some(questions[i]);
            }
            i = i + 1;
        }
        None
    }

    /// When this question is asked, for sub-questions. [`None`] for top-level
    /// questions, which are always asked.
    pub fn asked_when(&self) -> (r: Option<AskedWhen>)
        ensures
            r == asked_when_spec(*self),
    {
        if self.parent.is_none() {
            return None;
        }
        Some(
            if crate::text::same_text(self.id, ASKED_WHEN_PARENT_IS_NO) {
                AskedWhen::ParentIsNo
            } else {
                AskedWhen::ParentIsYes
            },
        )
    }
}

/// The Forge app security questionnaire: 17 numbered questions plus their
/// conditional sub-questions, in published order.
pub open spec fn forge_questionnaire() -> Seq<Question> {
    seq![
        Question {
            id: "1",
            parent: None,
            category: Category::AuthenticationAndAuthorization,
            prompt: "Does your Forge app functionality include user interactions?",
            kind: AnswerKind::YesNo,
            signal: ReviewSignal::Info,
            nonconforming: None,
        },
        Question {
            id: "1a",
            parent: Some("1"),
            category: Category::AuthenticationAndAuthorization,
            prompt: "Does your app use asUser() method where applicable for actions performed by the user?",
            kind: AnswerKind::YesNo,
            signal: ReviewSignal::Warning,
            nonconforming: Some(NonConforming::No),
        },
        Question {
            id: "2",
            parent: None,
            category: Category::AuthenticationAndAuthorization,
            prompt: "Does your app use Forge remote?",
            kind: AnswerKind::YesNo,
            signal: ReviewSignal::Info,
            nonconforming: None,
        },
        Question {
            id: "2a",
            parent: Some("2"),
            category: Category::AuthenticationAndAuthorization,
            prompt: "Does your remote host validate authentication information from the Forge Invocation Token (FIT)?",
            kind: AnswerKind::YesNo,
            signal: ReviewSignal::Fail,
            nonconforming: Some(NonConforming::No),
        },
        Question {
            id: "2b",
            parent: Some("2"),
            category: Category::AuthenticationAndAuthorization,
            prompt: "Does your remote host execute user actions that require user context and appropriately validate whether the user has necessary permissions?",
            kind: AnswerKind::YesNoNotApplicable,
            signal: ReviewSignal::Fail,
            nonconforming: Some(NonConforming::No),
        },
        Question {
            id: "3",
            parent: None,
            category: Category::AuthenticationAndAuthorization,
            prompt: "Before invoking calls using asApp() on actions that require user-specific permissions, do you ensure that the user has necessary permissions by calling the permissions REST APIs?",
            kind: AnswerKind::YesNoNotApplicable,
            signal: ReviewSignal::Fail,
            nonconforming: Some(NonConforming::No),
        },
        Question {
            id: "4",
            parent: None,
            category: Category::AuthenticationAndAuthorization,
            prompt: "Does your Forge app use web triggers?",
            kind: AnswerKind::YesNo,
            signal: ReviewSignal::Info,
            nonconforming: None,
        },
        Question {
            id: "4a",
            parent: Some("4"),
            category: Category::AuthenticationAndAuthorization,
            prompt: "Do you perform authentication checks on the web trigger when invoking critical functions?",
            kind: AnswerKind::YesNo,
            signal: ReviewSignal::Warning,
            nonconforming: Some(NonConforming::No),
        },
        Question {
            id: "5",
            parent: None,
            category: Category::AuthenticationAndAuthorization,
            prompt: "Does your Forge app use display conditions?",
            kind: AnswerKind::YesNo,
            signal: ReviewSignal::Info,
            nonconforming: None,
        },
        Question {
            id: "5a",
            parent: Some("5"),
            category: Category::AuthenticationAndAuthorization,
            prompt: "Do you rely solely on these conditions and not check user permissions in your code?",
            kind: AnswerKind::YesNo,
            signal: ReviewSignal::Warning,
            nonconforming: Some(NonConforming::Yes),
        },
        Question {
            id: "6",
            parent: None,
            category: Category::DataSecurity,
            prompt: "Does your Forge app egress data to external hosts?",
            kind: AnswerKind::YesNo,
            signal: ReviewSignal::Info,
            nonconforming: None,
        },
        Question {
            id: "6a",
            parent: Some("6"),
            category: Category::DataSecurity,
            prompt: "Does the egress domains include *.com or * in the Forge manifest file?",
            kind: AnswerKind::YesNo,
            signal: ReviewSignal::Warning,
            nonconforming: Some(NonConforming::Yes),
        },
        Question {
            id: "6b",
            parent: Some("6"),
            category: Category::DataSecurity,
            prompt: "Are all communications with the remote host encrypted over TLS version 1.2 or above?",
            kind: AnswerKind::YesNo,
            signal: ReviewSignal::Fail,
            nonconforming: Some(NonConforming::No),
        },
        Question {
            id: "6c",
            parent: Some("6"),
            category: Category::DataSecurity,
            prompt: "Do you plan to renew the egress domain as well as its cert when they expire?",
            kind: AnswerKind::YesNo,
            signal: ReviewSignal::Warning,
            nonconforming: Some(NonConforming::No),
        },
        Question {
            id: "6d",
            parent: Some("6"),
            category: Category::DataSecurity,
            prompt: "Did you implement controls to safeguard customer data stored at rest on the remote host?",
            kind: AnswerKind::YesNo,
            signal: ReviewSignal::Warning,
            nonconforming: Some(NonConforming::No),
        },
        Question {
            id: "6d-i",
            parent: Some("6d"),
            category: Category::DataSecurity,
            prompt: "Please list all the controls in place.",
            kind: AnswerKind::OpenText,
            signal: ReviewSignal::Info,
            nonconforming: None,
        },
        Question {
            id: "7",
            parent: None,
            category: Category::DataSecurity,
            prompt: "Does your Forge app adhere to the principle of least privilege by ensuring that the app's scope is limited to only the permissions necessary for its functionality?",
            kind: AnswerKind::YesNo,
            signal: ReviewSignal::Warning,
            nonconforming: Some(NonConforming::No),
        },
        Question {
            id: "8",
            parent: None,
            category: Category::DataSecurity,
            prompt: "Does your app log sensitive information (such as PII, credentials, access tokens, or API keys) in Forge logs?",
            kind: AnswerKind::YesNo,
            signal: ReviewSignal::Warning,
            nonconforming: Some(NonConforming::Yes),
        },
        Question {
            id: "9",
            parent: None,
            category: Category::ApplicationSecurity,
            prompt: "Have you implemented controls in the app to validate and sanitize all user inputs in order to mitigate vulnerabilities related to injection attacks?",
            kind: AnswerKind::YesNo,
            signal: ReviewSignal::Warning,
            nonconforming: Some(NonConforming::No),
        },
        Question {
            id: "9a",
            parent: Some("9"),
            category: Category::ApplicationSecurity,
            prompt: "Please explain the input validations implemented on user inputs / URLs if applicable.",
            kind: AnswerKind::OpenText,
            signal: ReviewSignal::Info,
            nonconforming: None,
        },
        Question {
            id: "10",
            parent: None,
            category: Category::ApplicationSecurity,
            prompt: "Did you review the app's 3rd party dependencies for vulnerabilities using automated tools? and, do you plan to keep these dependencies up to date?",
            kind: AnswerKind::YesNo,
            signal: ReviewSignal::Fail,
            nonconforming: Some(NonConforming::No),
        },
        Question {
            id: "11",
            parent: None,
            category: Category::SecretsManagement,
            prompt: "Does your app collect Atlassian user account credentials, such as passwords or API tokens?",
            kind: AnswerKind::YesNo,
            signal: ReviewSignal::Fail,
            nonconforming: Some(NonConforming::Yes),
        },
        Question {
            id: "12",
            parent: None,
            category: Category::SecretsManagement,
            prompt: "Does your app collect any 3rd party service's credentials or tokens?",
            kind: AnswerKind::YesNo,
            signal: ReviewSignal::Info,
            nonconforming: None,
        },
        Question {
            id: "12a",
            parent: Some("12"),
            category: Category::SecretsManagement,
            prompt: "Do you store them in Forge storage with encryption?",
            kind: AnswerKind::YesNo,
            signal: ReviewSignal::Info,
            nonconforming: None,
        },
        Question {
            id: "12a-i",
            parent: Some("12a"),
            category: Category::SecretsManagement,
            prompt: "If not, do you store them externally?",
            kind: AnswerKind::YesNo,
            signal: ReviewSignal::Info,
            nonconforming: None,
        },
        Question {
            id: "13",
            parent: None,
            category: Category::SecretsManagement,
            prompt: "Does your app expose any secrets in plain text in accessible locations like URLs, source code, or code repositories?",
            kind: AnswerKind::YesNo,
            signal: ReviewSignal::Fail,
            nonconforming: Some(NonConforming::Yes),
        },
        Question {
            id: "14",
            parent: None,
            category: Category::VulnerabilityManagement,
            prompt: "Do you perform vulnerability scans and review results?",
            kind: AnswerKind::YesNo,
            signal: ReviewSignal::Info,
            nonconforming: None,
        },
        Question {
            id: "14a",
            parent: Some("14"),
            category: Category::VulnerabilityManagement,
            prompt: "Please select the type of scans performed: software composition analysis (SCA), static application security testing (SAST), dynamic application security testing (DAST).",
            kind: AnswerKind::MultiSelect,
            signal: ReviewSignal::Info,
            nonconforming: None,
        },
        Question {
            id: "15",
            parent: None,
            category: Category::VulnerabilityManagement,
            prompt: "Have you read our Marketplace Security Bug Fix policy?",
            kind: AnswerKind::YesNo,
            signal: ReviewSignal::Info,
            nonconforming: None,
        },
        Question {
            id: "16",
            parent: None,
            category: Category::VulnerabilityManagement,
            prompt: "Do you plan to notify customers and Atlassian in case of a security incident or a critical vulnerability on your app?",
            kind: AnswerKind::YesNo,
            signal: ReviewSignal::Info,
            nonconforming: None,
        },
        Question {
            id: "17",
            parent: None,
            category: Category::VulnerabilityManagement,
            prompt: "Have you identified a security contact for the app and created an account on ecosystem.atlassian.net?",
            kind: AnswerKind::YesNo,
            signal: ReviewSignal::Info,
            nonconforming: None,
        },
    ]
}

/// The Forge app security questionnaire, in published order.
pub fn forge_questions() -> (r: Vec<Question>)
    ensures
        r@ == forge_questionnaire(),
{
    let r = vec![
        Question {
            id: "1",
            parent: None,
            category: Category::AuthenticationAndAuthorization,
            prompt: "Does your Forge app functionality include user interactions?",
            kind: AnswerKind::YesNo,
            signal: ReviewSignal::Info,
            nonconforming: None,
        },
        Question {
            id: "1a",
            parent: Some("1"),
            category: Category::AuthenticationAndAuthorization,
            prompt: "Does your app use asUser() method where applicable for actions performed by the user?",
            kind: AnswerKind::YesNo,
            signal: ReviewSignal::Warning,
            nonconforming: Some(NonConforming::No),
        },
        Question {
            id: "2",
            parent: None,
            category: Category::AuthenticationAndAuthorization,
            prompt: "Does your app use Forge remote?",
            kind: AnswerKind::YesNo,
            signal: ReviewSignal::Info,
            nonconforming: None,
        },
        Question {
            id: "2a",
            parent: Some("2"),
            category: Category::AuthenticationAndAuthorization,
            prompt: "Does your remote host validate authentication information from the Forge Invocation Token (FIT)?",
            kind: AnswerKind::YesNo,
            signal: ReviewSignal::Fail,
            nonconforming: Some(NonConforming::No),
        },
        Question {
            id: "2b",
            parent: Some("2"),
            category: Category::AuthenticationAndAuthorization,
            prompt: "Does your remote host execute user actions that require user context and appropriately validate whether the user has necessary permissions?",
            kind: AnswerKind::YesNoNotApplicable,
            signal: ReviewSignal::Fail,
            nonconforming: Some(NonConforming::No),
        },
        Question {
            id: "3",
            parent: None,
            category: Category::AuthenticationAndAuthorization,
            prompt: "Before invoking calls using asApp() on actions that require user-specific permissions, do you ensure that the user has necessary permissions by calling the permissions REST APIs?",
            kind: AnswerKind::YesNoNotApplicable,
            signal: ReviewSignal::Fail,
            nonconforming: Some(NonConforming::No),
        },
        Question {
            id: "4",
            parent: None,
            category: Category::AuthenticationAndAuthorization,
            prompt: "Does your Forge app use web triggers?",
            kind: AnswerKind::YesNo,
            signal: ReviewSignal::Info,
            nonconforming: None,
        },
        Question {
            id: "4a",
            parent: Some("4"),
            category: Category::AuthenticationAndAuthorization,
            prompt: "Do you perform authentication checks on the web trigger when invoking critical functions?",
            kind: AnswerKind::YesNo,
            signal: ReviewSignal::Warning,
            nonconforming: Some(NonConforming::No),
        },
        Question {
            id: "5",
            parent: None,
            category: Category::AuthenticationAndAuthorization,
            prompt: "Does your Forge app use display conditions?",
            kind: AnswerKind::YesNo,
            signal: ReviewSignal::Info,
            nonconforming: None,
        },
        Question {
            id: "5a",
            parent: Some("5"),
            category: Category::AuthenticationAndAuthorization,
            prompt: "Do you rely solely on these conditions and not check user permissions in your code?",
            kind: AnswerKind::YesNo,
            signal: ReviewSignal::Warning,
            nonconforming: Some(NonConforming::Yes),
        },
        Question {
            id: "6",
            parent: None,
            category: Category::DataSecurity,
            prompt: "Does your Forge app egress data to external hosts?",
            kind: AnswerKind::YesNo,
            signal: ReviewSignal::Info,
            nonconforming: None,
        },
        Question {
            id: "6a",
            parent: Some("6"),
            category: Category::DataSecurity,
            prompt: "Does the egress domains include *.com or * in the Forge manifest file?",
            kind: AnswerKind::YesNo,
            signal: ReviewSignal::Warning,
            nonconforming: Some(NonConforming::Yes),
        },
        Question {
            id: "6b",
            parent: Some("6"),
            category: Category::DataSecurity,
            prompt: "Are all communications with the remote host encrypted over TLS version 1.2 or above?",
            kind: AnswerKind::YesNo,
            signal: ReviewSignal::Fail,
            nonconforming: Some(NonConforming::No),
        },
        Question {
            id: "6c",
            parent: Some("6"),
            category: Category::DataSecurity,
            prompt: "Do you plan to renew the egress domain as well as its cert when they expire?",
            kind: AnswerKind::YesNo,
            signal: ReviewSignal::Warning,
            nonconforming: Some(NonConforming::No),
        },
        Question {
            id: "6d",
            parent: Some("6"),
            category: Category::DataSecurity,
            prompt: "Did you implement controls to safeguard customer data stored at rest on the remote host?",
            kind: AnswerKind::YesNo,
            signal: ReviewSignal::Warning,
            nonconforming: Some(NonConforming::No),
        },
        Question {
            id: "6d-i",
            parent: Some("6d"),
            category: Category::DataSecurity,
            prompt: "Please list all the controls in place.",
            kind: AnswerKind::OpenText,
            signal: ReviewSignal::Info,
            nonconforming: None,
        },
        Question {
            id: "7",
            parent: None,
            category: Category::DataSecurity,
            prompt: "Does your Forge app adhere to the principle of least privilege by ensuring that the app's scope is limited to only the permissions necessary for its functionality?",
            kind: AnswerKind::YesNo,
            signal: ReviewSignal::Warning,
            nonconforming: Some(NonConforming::No),
        },
        Question {
            id: "8",
            parent: None,
            category: Category::DataSecurity,
            prompt: "Does your app log sensitive information (such as PII, credentials, access tokens, or API keys) in Forge logs?",
            kind: AnswerKind::YesNo,
            signal: ReviewSignal::Warning,
            nonconforming: Some(NonConforming::Yes),
        },
        Question {
            id: "9",
            parent: None,
            category: Category::ApplicationSecurity,
            prompt: "Have you implemented controls in the app to validate and sanitize all user inputs in order to mitigate vulnerabilities related to injection attacks?",
            kind: AnswerKind::YesNo,
            signal: ReviewSignal::Warning,
            nonconforming: Some(NonConforming::No),
        },
        Question {
            id: "9a",
            parent: Some("9"),
            category: Category::ApplicationSecurity,
            prompt: "Please explain the input validations implemented on user inputs / URLs if applicable.",
            kind: AnswerKind::OpenText,
            signal: ReviewSignal::Info,
            nonconforming: None,
        },
        Question {
            id: "10",
            parent: None,
            category: Category::ApplicationSecurity,
            prompt: "Did you review the app's 3rd party dependencies for vulnerabilities using automated tools? and, do you plan to keep these dependencies up to date?",
            kind: AnswerKind::YesNo,
            signal: ReviewSignal::Fail,
            nonconforming: Some(NonConforming::No),
        },
        Question {
            id: "11",
            parent: None,
            category: Category::SecretsManagement,
            prompt: "Does your app collect Atlassian user account credentials, such as passwords or API tokens?",
            kind: AnswerKind::YesNo,
            signal: ReviewSignal::Fail,
            nonconforming: Some(NonConforming::Yes),
        },
        Question {
            id: "12",
            parent: None,
            category: Category::SecretsManagement,
            prompt: "Does your app collect any 3rd party service's credentials or tokens?",
            kind: AnswerKind::YesNo,
            signal: ReviewSignal::Info,
            nonconforming: None,
        },
        Question {
            id: "12a",
            parent: Some("12"),
            category: Category::SecretsManagement,
            prompt: "Do you store them in Forge storage with encryption?",
            kind: AnswerKind::YesNo,
            signal: ReviewSignal::Info,
            nonconforming: None,
        },
        Question {
            id: "12a-i",
            parent: Some("12a"),
            category: Category::SecretsManagement,
            prompt: "If not, do you store them externally?",
            kind: AnswerKind::YesNo,
            signal: ReviewSignal::Info,
            nonconforming: None,
        },
        Question {
            id: "13",
            parent: None,
            category: Category::SecretsManagement,
            prompt: "Does your app expose any secrets in plain text in accessible locations like URLs, source code, or code repositories?",
            kind: AnswerKind::YesNo,
            signal: ReviewSignal::Fail,
            nonconforming: Some(NonConforming::Yes),
        },
        Question {
            id: "14",
            parent: None,
            category: Category::VulnerabilityManagement,
            prompt: "Do you perform vulnerability scans and review results?",
            kind: AnswerKind::YesNo,
            signal: ReviewSignal::Info,
            nonconforming: None,
        },
        Question {
            id: "14a",
            parent: Some("14"),
            category: Category::VulnerabilityManagement,
            prompt: "Please select the type of scans performed: software composition analysis (SCA), static application security testing (SAST), dynamic application security testing (DAST).",
            kind: AnswerKind::MultiSelect,
            signal: ReviewSignal::Info,
            nonconforming: None,
        },
        Question {
            id: "15",
            parent: None,
            category: Category::VulnerabilityManagement,
            prompt: "Have you read our Marketplace Security Bug Fix policy?",
            kind: AnswerKind::YesNo,
            signal: ReviewSignal::Info,
            nonconforming: None,
        },
        Question {
            id: "16",
            parent: None,
            category: Category::VulnerabilityManagement,
            prompt: "Do you plan to notify customers and Atlassian in case of a security incident or a critical vulnerability on your app?",
            kind: AnswerKind::YesNo,
            signal: ReviewSignal::Info,
            nonconforming: None,
        },
        Question {
            id: "17",
            parent: None,
            category: Category::VulnerabilityManagement,
            prompt: "Have you identified a security contact for the app and created an account on ecosystem.atlassian.net?",
            kind: AnswerKind::YesNo,
            signal: ReviewSignal::Info,
            nonconforming: None,
        },
    ];
    assert(r@ =~= forge_questionnaire());
    r
}

/// Every question that can raise a signal says which answer raises it, and
/// no other question does: an informational or free-form question declares
/// no non-conforming answer, and every yes/no question whose signal is more
/// than informational declares one.
pub proof fn lemma_polarity_is_declared_exactly_where_it_matters()
    ensures
        forall|i: int|
            0 <= i < forge_questionnaire().len() ==> {
                let q = #[trigger] forge_questionnaire()[i];
                &&& q.signal == ReviewSignal::Info ==> q.nonconforming is None
                &&& (q.kind == AnswerKind::OpenText || q.kind == AnswerKind::MultiSelect)
                    ==> q.nonconforming is None
                &&& (q.signal != ReviewSignal::Info && (q.kind == AnswerKind::YesNo || q.kind
                    == AnswerKind::YesNoNotApplicable)) ==> q.nonconforming is Some
            },
{
}

/// Every sub-question's parent is a question that comes before it, so a
/// sub-question's answer can always see its parent's.
pub proof fn lemma_parents_come_first()
    ensures
        forall|i: int|
            0 <= i < forge_questionnaire().len() ==> match (#[trigger] forge_questionnaire()[i]).parent {
                Some(p) => exists|k: int| 0 <= k < i && (#[trigger] forge_questionnaire()[k]).id@ == p@,
                None => true,
            },
{
}

/// Question ids are unique.
pub proof fn lemma_ids_are_unique()
    ensures
        forall|i: int, j: int|
            0 <= i < j < forge_questionnaire().len() ==> (#[trigger] forge_questionnaire()[i]).id@
                != (#[trigger] forge_questionnaire()[j]).id@,
{
    reveal_strlit("1");
    assert("1"@.len() == 1);
    assert("1"@[0] == '1');
    reveal_strlit("1a");
    assert("1a"@.len() == 2);
    assert("1a"@[0] == '1');
    assert("1a"@[1] == 'a');
    reveal_strlit("2");
    assert("2"@.len() == 1);
    assert("2"@[0] == '2');
    reveal_strlit("2a");
    assert("2a"@.len() == 2);
    assert("2a"@[0] == '2');
    assert("2a"@[1] == 'a');
    reveal_strlit("2b");
    assert("2b"@.len() == 2);
    assert("2b"@[0] == '2');
    assert("2b"@[1] == 'b');
    reveal_strlit("3");
    assert("3"@.len() == 1);
    assert("3"@[0] == '3');
    reveal_strlit("4");
    assert("4"@.len() == 1);
    assert("4"@[0] == '4');
    reveal_strlit("4a");
    assert("4a"@.len() == 2);
    assert("4a"@[0] == '4');
    assert("4a"@[1] == 'a');
    reveal_strlit("5");
    assert("5"@.len() == 1);
    assert("5"@[0] == '5');
    reveal_strlit("5a");
    assert("5a"@.len() == 2);
    assert("5a"@[0] == '5');
    assert("5a"@[1] == 'a');
    reveal_strlit("6");
    assert("6"@.len() == 1);
    assert("6"@[0] == '6');
    reveal_strlit("6a");
    assert("6a"@.len() == 2);
    assert("6a"@[0] == '6');
    assert("6a"@[1] == 'a');
    reveal_strlit("6b");
    assert("6b"@.len() == 2);
    assert("6b"@[0] == '6');
    assert("6b"@[1] == 'b');
    reveal_strlit("6c");
    assert("6c"@.len() == 2);
    assert("6c"@[0] == '6');
    assert("6c"@[1] == 'c');
    reveal_strlit("6d");
    assert("6d"@.len() == 2);
    assert("6d"@[0] == '6');
    assert("6d"@[1] == 'd');
    reveal_strlit("6d-i");
    assert("6d-i"@.len() == 4);
    assert("6d-i"@[0] == '6');
    assert("6d-i"@[1] == 'd');
    assert("6d-i"@[2] == '-');
    assert("6d-i"@[3] == 'i');
    reveal_strlit("7");
    assert("7"@.len() == 1);
    assert("7"@[0] == '7');
    reveal_strlit("8");
    assert("8"@.len() == 1);
    assert("8"@[0] == '8');
    reveal_strlit("9");
    assert("9"@.len() == 1);
    assert("9"@[0] == '9');
    reveal_strlit("9a");
    assert("9a"@.len() == 2);
    assert("9a"@[0] == '9');
    assert("9a"@[1] == 'a');
    reveal_strlit("10");
    assert("10"@.len() == 2);
    assert("10"@[0] == '1');
    assert("10"@[1] == '0');
    reveal_strlit("11");
    assert("11"@.len() == 2);
    assert("11"@[0] == '1');
    assert("11"@[1] == '1');
    reveal_strlit("12");
    assert("12"@.len() == 2);
    assert("12"@[0] == '1');
    assert("12"@[1] == '2');
    reveal_strlit("12a");
    assert("12a"@.len() == 3);
    assert("12a"@[0] == '1');
    assert("12a"@[1] == '2');
    assert("12a"@[2] == 'a');
    reveal_strlit("12a-i");
    assert("12a-i"@.len() == 5);
    assert("12a-i"@[0] == '1');
    assert("12a-i"@[1] == '2');
    assert("12a-i"@[2] == 'a');
    assert("12a-i"@[3] == '-');
    assert("12a-i"@[4] == 'i');
    reveal_strlit("13");
    assert("13"@.len() == 2);
    assert("13"@[0] == '1');
    assert("13"@[1] == '3');
    reveal_strlit("14");
    assert("14"@.len() == 2);
    assert("14"@[0] == '1');
    assert("14"@[1] == '4');
    reveal_strlit("14a");
    assert("14a"@.len() == 3);
    assert("14a"@[0] == '1');
    assert("14a"@[1] == '4');
    assert("14a"@[2] == 'a');
    reveal_strlit("15");
    assert("15"@.len() == 2);
    assert("15"@[0] == '1');
    assert("15"@[1] == '5');
    reveal_strlit("16");
    assert("16"@.len() == 2);
    assert("16"@[0] == '1');
    assert("16"@[1] == '6');
    reveal_strlit("17");
    assert("17"@.len() == 2);
    assert("17"@[0] == '1');
    assert("17"@[1] == '7');
    assert forall|i: int, j: int| 0 <= i < j < 31 implies (#[trigger] forge_questionnaire()[i]).id@
        != (#[trigger] forge_questionnaire()[j]).id@ by {
        assert(
            i == 0 || i == 1 || i == 2 || i == 3 || i == 4 || i == 5 || i == 6 || i == 7 || i == 8
            || i == 9 || i == 10 || i == 11 || i == 12 || i == 13 || i == 14 || i == 15 || i == 16
            || i == 17 || i == 18 || i == 19 || i == 20 || i == 21 || i == 22 || i == 23 || i == 24
            || i == 25 || i == 26 || i == 27 || i == 28 || i == 29 || i == 30
        );
        assert(
            j == 0 || j == 1 || j == 2 || j == 3 || j == 4 || j == 5 || j == 6 || j == 7 || j == 8
            || j == 9 || j == 10 || j == 11 || j == 12 || j == 13 || j == 14 || j == 15 || j == 16
            || j == 17 || j == 18 || j == 19 || j == 20 || j == 21 || j == 22 || j == 23 || j == 24
            || j == 25 || j == 26 || j == 27 || j == 28 || j == 29 || j == 30
        );
    }
}

} // verus!
