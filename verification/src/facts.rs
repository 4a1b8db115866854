//! Everything this tool can learn from a Forge `manifest.yml`.
//!
//! Every fact carries the manifest path it came from (see [`Located`]) so that
//! an answer can cite its evidence.
use vstd::prelude::*;

use crate::text::{
    ascii_lower, ascii_lowercase, before_any, before_any_of, contains_seq, contains_text, find,
    find_exec, owned, same_text,
};

verus! {

/// A fact together with the manifest path it was read from.
#[derive(Debug, Clone, PartialEq, Eq)]
pub struct Located<T> {
    /// Dotted path into the manifest, e.g. `permissions.external.fetch.client[0]`.
    pub pointer: String,
    pub value: T,
}

impl<T> Located<T> {
    pub fn new(pointer: String, value: T) -> (r: Self)
        ensures
            r.pointer@ == pointer@,
            r.value == value,
    {
        Located { pointer, value }
    }
}

/// The text content of a located string: its pointer and its value.
pub open spec fn located_text(l: Located<String>) -> (Seq<char>, Seq<char>) {
    (l.pointer@, l.value@)
}

/// The text contents of a sequence of located strings.
pub open spec fn located_texts(v: Seq<Located<String>>) -> Seq<(Seq<char>, Seq<char>)> {
    v.map_values(|l: Located<String>| located_text(l))
}

/// A copy of a located string.
pub fn copy_located(l: &Located<String>) -> (r: Located<String>)
    ensures
        located_text(r) == located_text(*l),
{
    Located { pointer: l.pointer.clone(), value: l.value.clone() }
}

/// A host product a module belongs to, inferred from the module type's prefix.
///
/// `Other` keeps forward compatibility: a product this tool has never heard of
/// is reported rather than dropped.
#[derive(Debug, Clone, PartialEq, Eq, PartialOrd, Ord, Hash)]
pub enum HostProduct {
    Jira,
    JiraServiceManagement,
    Confluence,
    Compass,
    Bitbucket,
    Rovo,
    Other(String),
}

/// The mathematical content of a [`HostProduct`].
pub enum HostProductView {
    Jira,
    JiraServiceManagement,
    Confluence,
    Compass,
    Bitbucket,
    Rovo,
    Other(Seq<char>),
}

impl View for HostProduct {
    type V = HostProductView;

    open spec fn view(&self) -> HostProductView {
        match self {
            HostProduct::Jira => HostProductView::Jira,
            HostProduct::JiraServiceManagement => HostProductView::JiraServiceManagement,
            HostProduct::Confluence => HostProductView::Confluence,
            HostProduct::Compass => HostProductView::Compass,
            HostProduct::Bitbucket => HostProductView::Bitbucket,
            HostProduct::Rovo => HostProductView::Rovo,
            HostProduct::Other(name) => HostProductView::Other(name@),
        }
    }
}

/// The name a host product is shown with.
pub open spec fn host_product_display(p: HostProductView) -> Seq<char> {
    match p {
        HostProductView::Jira => "Jira"@,
        HostProductView::JiraServiceManagement => "Jira Service Management"@,
        HostProductView::Confluence => "Confluence"@,
        HostProductView::Compass => "Compass"@,
        HostProductView::Bitbucket => "Bitbucket"@,
        HostProductView::Rovo => "Rovo"@,
        HostProductView::Other(name) => name,
    }
}

/// Module types that exist in every product and therefore imply no host
/// product.
pub open spec fn is_product_agnostic(t: Seq<char>) -> bool {
    t == "function"@ || t == "webtrigger"@ || t == "trigger"@ || t == "scheduledTrigger"@ || t
        == "consumer"@ || t == "apiRoute"@ || t == "endpoint"@ || t == "resource"@ || t
        == "remote"@ || t == "action"@ || t == "dataProvider"@ || t == "graphql"@
}

/// Module types that cannot surface a user interface.
///
/// A deny list on purpose: an unrecognised module type is assumed to be user
/// facing, which keeps the `asUser()` follow-up question in play.
pub open spec fn is_non_user_facing(t: Seq<char>) -> bool {
    t == "function"@ || t == "webtrigger"@ || t == "trigger"@ || t == "scheduledTrigger"@ || t
        == "consumer"@ || t == "apiRoute"@ || t == "endpoint"@ || t == "resource"@ || t
        == "remote"@ || t == "dataProvider"@
}

/// Whether a module type is on the product-agnostic list.
pub fn product_agnostic(t: &str) -> (r: bool)
    ensures
        r == is_product_agnostic(t@),
{
    same_text(t, "function") || same_text(t, "webtrigger") || same_text(t, "trigger")
        || same_text(t, "scheduledTrigger") || same_text(t, "consumer") || same_text(t, "apiRoute")
        || same_text(t, "endpoint") || same_text(t, "resource") || same_text(t, "remote")
        || same_text(t, "action") || same_text(t, "dataProvider") || same_text(t, "graphql")
}

/// Whether a module type is on the deny list of non-user-facing types.
pub fn non_user_facing(t: &str) -> (r: bool)
    ensures
        r == is_non_user_facing(t@),
{
    same_text(t, "function") || same_text(t, "webtrigger") || same_text(t, "trigger")
        || same_text(t, "scheduledTrigger") || same_text(t, "consumer") || same_text(t, "apiRoute")
        || same_text(t, "endpoint") || same_text(t, "resource") || same_text(t, "remote")
        || same_text(t, "dataProvider")
}

/// The part of a colon-separated name before the first colon.
pub open spec fn before_colon(s: Seq<char>) -> Seq<char> {
    before_any(s, seq![':'])
}

/// The host product a module type implies, if any.
pub open spec fn host_product_of(t: Seq<char>) -> Option<HostProductView> {
    if is_product_agnostic(t) {
        None
    } else if t == "macro"@ {
        Some(HostProductView::Confluence)
    } else {
        let prefix = before_colon(t);
        Some(
            if prefix == "jira"@ {
                HostProductView::Jira
            } else if prefix == "jiraServiceManagement"@ {
                HostProductView::JiraServiceManagement
            } else if prefix == "confluence"@ {
                HostProductView::Confluence
            } else if prefix == "compass"@ {
                HostProductView::Compass
            } else if prefix == "bitbucket"@ {
                HostProductView::Bitbucket
            } else if prefix == "rovo"@ {
                HostProductView::Rovo
            } else {
                HostProductView::Other(prefix)
            },
        )
    }
}

impl HostProduct {
    pub fn display(&self) -> (r: &str)
        ensures
            r@ == host_product_display(self@),
    {
        match self {
            HostProduct::Jira => "Jira",
            HostProduct::JiraServiceManagement => "Jira Service Management",
            HostProduct::Confluence => "Confluence",
            HostProduct::Compass => "Compass",
            HostProduct::Bitbucket => "Bitbucket",
            HostProduct::Rovo => "Rovo",
            HostProduct::Other(name) => name.as_str(),
        }
    }

    /// Infer the host product a module type belongs to.
    ///
    /// Returns [`None`] for product-agnostic module types, which say nothing
    /// about the host.
    pub fn from_module_type(module_type: &str) -> (r: Option<Self>)
        ensures
            match host_product_of(module_type@) {
                Some(p) => r matches Some(q) && q@ == p,
                None => r is None,
            },
    {
        if product_agnostic(module_type) {
            return None;
        }
        // `macro` is a Confluence module and is spelled without a prefix.
        if same_text(module_type, "macro") {
            return Some(HostProduct::Confluence);
        }
        let colon = [':'];
        let prefix = before_any_of(module_type, &colon);
        proof {
            assert(colon@ =~= seq![':']);
        }
        Some(
            if same_text(prefix, "jira") {
                HostProduct::Jira
            } else if same_text(prefix, "jiraServiceManagement") {
                HostProduct::JiraServiceManagement
            } else if same_text(prefix, "confluence") {
                HostProduct::Confluence
            } else if same_text(prefix, "compass") {
                HostProduct::Compass
            } else if same_text(prefix, "bitbucket") {
                HostProduct::Bitbucket
            } else if same_text(prefix, "rovo") {
                HostProduct::Rovo
            } else {
                HostProduct::Other(owned(prefix))
            },
        )
    }

    /// A copy of this host product.
    pub fn copy(&self) -> (r: Self)
        ensures
            r@ == self@,
    {
        match self {
            HostProduct::Jira => HostProduct::Jira,
            HostProduct::JiraServiceManagement => HostProduct::JiraServiceManagement,
            HostProduct::Confluence => HostProduct::Confluence,
            HostProduct::Compass => HostProduct::Compass,
            HostProduct::Bitbucket => HostProduct::Bitbucket,
            HostProduct::Rovo => HostProduct::Rovo,
            HostProduct::Other(name) => HostProduct::Other(name.clone()),
        }
    }
}

/// The verb of a Forge scope, e.g. the `manage` in `manage:jira-configuration`.
#[derive(Debug, Clone, Copy, PartialEq, Eq, Structural, PartialOrd, Ord, Hash)]
pub enum ScopeVerb {
    Read,
    Write,
    Delete,
    Manage,
    Admin,
    /// Any other verb, e.g. `storage` in `storage:app`.
    Other,
}

/// The verb a scope string declares.
pub open spec fn scope_verb_of(scope: Seq<char>) -> ScopeVerb {
    let verb = before_colon(scope);
    if verb == "read"@ {
        ScopeVerb::Read
    } else if verb == "write"@ {
        ScopeVerb::Write
    } else if verb == "delete"@ {
        ScopeVerb::Delete
    } else if verb == "manage"@ {
        ScopeVerb::Manage
    } else if verb == "admin"@ {
        ScopeVerb::Admin
    } else {
        ScopeVerb::Other
    }
}

/// Whether a verb grants more than read access.
pub open spec fn verb_is_elevated(v: ScopeVerb) -> bool {
    v == ScopeVerb::Write || v == ScopeVerb::Delete || v == ScopeVerb::Manage || v
        == ScopeVerb::Admin
}

impl ScopeVerb {
    /// The verb a scope string declares.
    pub fn parse(scope: &str) -> (r: Self)
        ensures
            r == scope_verb_of(scope@),
    {
        let colon = [':'];
        let verb = before_any_of(scope, &colon);
        proof {
            assert(colon@ =~= seq![':']);
        }
        if same_text(verb, "read") {
            ScopeVerb::Read
        } else if same_text(verb, "write") {
            ScopeVerb::Write
        } else if same_text(verb, "delete") {
            ScopeVerb::Delete
        } else if same_text(verb, "manage") {
            ScopeVerb::Manage
        } else if same_text(verb, "admin") {
            ScopeVerb::Admin
        } else {
            ScopeVerb::Other
        }
    }

    /// Whether this verb grants more than read access.
    ///
    /// Used only to *rank* declared scopes for the least-privilege question;
    /// it is not a judgement that the scope is unnecessary.
    pub fn is_elevated(self) -> (r: bool)
        ensures
            r == verb_is_elevated(self),
    {
        matches!(self, ScopeVerb::Write | ScopeVerb::Delete | ScopeVerb::Manage | ScopeVerb::Admin)
    }
}

/// A declared permission scope.
#[derive(Debug, Clone, PartialEq, Eq)]
pub struct Scope {
    pub raw: String,
    pub verb: ScopeVerb,
}

impl Scope {
    /// The scope a raw scope string declares.
    pub fn from_raw(raw: String) -> (r: Self)
        ensures
            r.raw@ == raw@,
            r.verb == scope_verb_of(raw@),
    {
        let verb = ScopeVerb::parse(raw.as_str());
        Scope { raw, verb }
    }

    /// A copy of this scope.
    pub fn copy(&self) -> (r: Self)
        ensures
            r.raw@ == self.raw@,
            r.verb == self.verb,
    {
        Scope { raw: self.raw.clone(), verb: self.verb }
    }
}

/// How an egress destination is spelled.
#[derive(Debug, Clone, Copy, PartialEq, Eq, Structural)]
pub enum EgressPattern {
    /// Exactly `*`: any host.
    AnyHost,
    /// A wildcard covering a whole top-level domain, e.g. `*.com`.
    WildcardTopLevel,
    /// A wildcard scoped to a domain the partner plausibly controls,
    /// e.g. `*.example.com`.
    WildcardScoped,
    /// A single fixed host or URL.
    Fixed,
    /// Contains a `${...}` placeholder resolved at deploy time.
    Interpolated,
}

/// How `{:?}` spells a pattern.
pub open spec fn egress_pattern_name(p: EgressPattern) -> Seq<char> {
    match p {
        EgressPattern::AnyHost => "AnyHost"@,
        EgressPattern::WildcardTopLevel => "WildcardTopLevel"@,
        EgressPattern::WildcardScoped => "WildcardScoped"@,
        EgressPattern::Fixed => "Fixed"@,
        EgressPattern::Interpolated => "Interpolated"@,
    }
}

/// The name of a pattern, as `{:?}` spells it.
pub fn egress_pattern_debug(p: EgressPattern) -> (r: &'static str)
    ensures
        r@ == egress_pattern_name(p),
{
    match p {
        EgressPattern::AnyHost => "AnyHost",
        EgressPattern::WildcardTopLevel => "WildcardTopLevel",
        EgressPattern::WildcardScoped => "WildcardScoped",
        EgressPattern::Fixed => "Fixed",
        EgressPattern::Interpolated => "Interpolated",
    }
}

pub const SCHEME_SEPARATOR: &'static str = "://";

pub const PLACEHOLDER_OPENER: &'static str = "${";

pub const ANY_HOST: &'static str = "*";

pub const WILDCARD_PREFIX: &'static str = "*.";

/// What follows the first `://`, or the whole value when there is none.
pub open spec fn after_scheme(v: Seq<char>) -> Seq<char> {
    match find(v, SCHEME_SEPARATOR@) {
        Some(i) => v.subrange(i + SCHEME_SEPARATOR@.len(), v.len() as int),
        None => v,
    }
}

/// The host part of a destination: scheme, path, query and fragment removed.
pub open spec fn host_of(v: Seq<char>) -> Seq<char> {
    before_any(after_scheme(v), seq!['/', '?', '#'])
}

/// How a destination is spelled.
pub open spec fn classify_egress_spec(v: Seq<char>) -> EgressPattern {
    let host = host_of(v);
    if contains_seq(v, PLACEHOLDER_OPENER@) {
        EgressPattern::Interpolated
    } else if host == ANY_HOST@ {
        EgressPattern::AnyHost
    } else if crate::text::has_prefix(host, WILDCARD_PREFIX@) {
        if host.subrange(WILDCARD_PREFIX@.len() as int, host.len() as int).contains('.') {
            EgressPattern::WildcardScoped
        } else {
            EgressPattern::WildcardTopLevel
        }
    } else {
        EgressPattern::Fixed
    }
}

/// The URL scheme of a destination, lower-cased, when it is spelled as a URL.
pub open spec fn scheme_of(v: Seq<char>) -> Option<Seq<char>> {
    match find(v, SCHEME_SEPARATOR@) {
        Some(i) => Some(ascii_lower(v.subrange(0, i))),
        None => None,
    }
}

/// Classify how a destination is spelled.
pub fn classify_egress(value: &str) -> (r: EgressPattern)
    ensures
        r == classify_egress_spec(value@),
{
    if contains_text(value, PLACEHOLDER_OPENER) {
        return EgressPattern::Interpolated;
    }
    // Strip scheme and any path so `https://*.com/x` classifies as `*.com`.
    let rest = match find_exec(value, SCHEME_SEPARATOR) {
        Some(i) => {
            proof {
                crate::text::lemma_find_in_bounds(value@, SCHEME_SEPARATOR@);
            }
            let n = value.unicode_len();
            let m = SCHEME_SEPARATOR.unicode_len();
            value.substring_char(i + m, n)
        },
        None => value,
    };
    let stops = ['/', '?', '#'];
    let host = before_any_of(rest, &stops);
    proof {
        assert(stops@ =~= seq!['/', '?', '#']);
    }
    if same_text(host, ANY_HOST) {
        return EgressPattern::AnyHost;
    }
    if crate::text::starts_with(host, WILDCARD_PREFIX) {
        let suffix = host.substring_char(WILDCARD_PREFIX.unicode_len(), host.unicode_len());
        // `*.com` covers an entire TLD; `*.example.com` does not.
        return if crate::text::contains_char(suffix, '.') {
            EgressPattern::WildcardScoped
        } else {
            EgressPattern::WildcardTopLevel
        };
    }
    EgressPattern::Fixed
}

/// The lower-cased scheme of a destination spelled as a URL.
pub fn scheme_of_exec(value: &str) -> (r: Option<String>)
    ensures
        match scheme_of(value@) {
            Some(s) => r matches Some(t) && t@ == s,
            None => r is None,
        },
{
    match find_exec(value, SCHEME_SEPARATOR) {
        Some(i) => {
            proof {
                crate::text::lemma_find_in_bounds(value@, SCHEME_SEPARATOR@);
            }
            Some(ascii_lowercase(value.substring_char(0, i)))
        },
        None => None,
    }
}

/// An external destination the app may talk to.
#[derive(Debug, Clone, PartialEq, Eq)]
pub struct EgressEntry {
    pub pointer: String,
    pub value: String,
    pub pattern: EgressPattern,
    /// URL scheme, when the entry is spelled as a URL.
    pub scheme: Option<String>,
}

/// Whether a pattern is one of the two spellings question 6a asks about.
pub open spec fn pattern_is_overly_broad(p: EgressPattern) -> bool {
    p == EgressPattern::AnyHost || p == EgressPattern::WildcardTopLevel
}

/// Whether an entry names the cleartext `http` transport.
pub open spec fn entry_is_cleartext(e: EgressEntry) -> bool {
    e.scheme matches Some(s) && s@ == "http"@
}

/// An entry is well formed when its pattern and scheme are those of its value.
pub open spec fn entry_wf(e: EgressEntry) -> bool {
    &&& e.pattern == classify_egress_spec(e.value@)
    &&& match scheme_of(e.value@) {
        Some(s) => e.scheme matches Some(t) && t@ == s,
        None => e.scheme is None,
    }
}

impl EgressEntry {
    /// An entry for a destination, classified from its spelling.
    pub fn new(pointer: String, value: String) -> (r: Self)
        ensures
            r.pointer@ == pointer@,
            r.value@ == value@,
            entry_wf(r),
    {
        let scheme = scheme_of_exec(value.as_str());
        let pattern = classify_egress(value.as_str());
        EgressEntry { pointer, value, pattern, scheme }
    }

    /// Whether the entry is one of the two spellings question 6a asks about
    /// (`*` or a whole-TLD wildcard such as `*.com`).
    pub fn is_overly_broad(&self) -> (r: bool)
        ensures
            r == pattern_is_overly_broad(self.pattern),
    {
        matches!(self.pattern, EgressPattern::AnyHost | EgressPattern::WildcardTopLevel)
    }

    /// Whether the entry names a cleartext transport, which cannot satisfy the
    /// TLS 1.2 requirement in question 6b.
    pub fn is_cleartext(&self) -> (r: bool)
        ensures
            r == entry_is_cleartext(*self),
    {
        match &self.scheme {
            Some(s) => same_text(s.as_str(), "http"),
            None => false,
        }
    }

    /// A copy of this entry.
    pub fn copy(&self) -> (r: Self)
        ensures
            r.pointer@ == self.pointer@,
            r.value@ == self.value@,
            r.pattern == self.pattern,
            match self.scheme {
                Some(s) => r.scheme matches Some(t) && t@ == s@,
                None => r.scheme is None,
            },
    {
        EgressEntry {
            pointer: self.pointer.clone(),
            value: self.value.clone(),
            pattern: self.pattern,
            scheme: match &self.scheme {
                Some(s) => Some(s.clone()),
                None => None,
            },
        }
    }
}

/// A declared Forge remote.
#[derive(Debug, Clone, PartialEq, Eq)]
pub struct Remote {
    pub key: String,
    pub base_url: Option<String>,
    /// `baseUrl` is a `${...}` placeholder, set at deploy time.
    pub base_url_is_interpolated: bool,
    pub operations: Vec<String>,
    /// An `auth` block is present.
    pub declares_auth: bool,
    /// `auth.appUserToken.enabled` is true.
    pub passes_user_token: bool,
    /// `auth.appSystemToken.enabled` is true.
    pub passes_system_token: bool,
}

impl Remote {
    /// Whether any token is forwarded to the remote.
    ///
    /// When no token is forwarded, the remote host has nothing to validate.
    pub fn forwards_a_token(&self) -> (r: bool)
        ensures
            r == (self.passes_user_token || self.passes_system_token),
    {
        self.passes_user_token || self.passes_system_token
    }
}

/// Everything read out of a manifest.
#[derive(Debug, Clone, PartialEq, Eq)]
pub struct ManifestFacts {
    pub app_id: Option<String>,
    pub app_name: Option<String>,
    pub runtime: Option<String>,
    /// The keys under `modules:`, in manifest order.
    pub declared_module_types: Vec<String>,
    pub host_products: Vec<HostProduct>,
    /// Declared module types that can surface a user interface.
    pub user_facing_module_types: Vec<String>,
    pub scopes: Vec<Scope>,
    /// `key` of every `webtrigger` module.
    pub webtriggers: Vec<Located<String>>,
    /// Every `displayConditions` block found under `modules`.
    pub display_conditions: Vec<Located<String>>,
    pub remotes: Vec<Remote>,
    /// Destinations from `permissions.external.*`.
    pub external_egress: Vec<EgressEntry>,
    /// `providers.auth[].key`: third-party OAuth providers.
    pub oauth_providers: Vec<String>,
    /// `unsafe-` relaxations in `permissions.content`.
    pub content_security_relaxations: Vec<Located<String>>,
    pub resource_keys: Vec<String>,
}

/// The prefix of every message an [`Error`] is shown with.
pub const ERROR_PREFIX: &'static str = "could not parse manifest: ";

/// Failure to read a manifest.
#[derive(Debug, Clone, PartialEq, Eq)]
pub enum Error {
    /// The document is not valid YAML, or does not have the shape of a Forge
    /// manifest; the text says how.
    Yaml(String),
}

impl Error {
    /// The error as it is shown to a user.
    pub fn message(&self) -> (r: String)
        ensures
            match self {
                Error::Yaml(detail) => r@ == ERROR_PREFIX@ + detail@,
            },
    {
        match self {
            Error::Yaml(detail) => crate::text::appended(crate::text::owned(ERROR_PREFIX), detail.as_str()),
        }
    }
}

impl ManifestFacts {
    /// Whether the app declares any external destination.
    pub open spec fn egresses_data_spec(self) -> bool {
        self.remotes@.len() != 0 || self.external_egress@.len() != 0
    }

    /// Whether the app declares any external destination, by remote or by
    /// `permissions.external`.
    pub fn egresses_data(&self) -> (r: bool)
        ensures
            r == self.egresses_data_spec(),
    {
        !self.remotes.is_empty() || !self.external_egress.is_empty()
    }

    /// The positions of the egress entries spelled `*` or `*.<tld>`.
    pub open spec fn overly_broad_positions(self) -> Seq<int> {
        kept_positions(
            self.external_egress@.len(),
            |i: int| pattern_is_overly_broad(self.external_egress@[i].pattern),
        )
    }

    /// The positions of the egress entries that name a cleartext transport.
    pub open spec fn cleartext_positions(self) -> Seq<int> {
        kept_positions(self.external_egress@.len(), |i: int| entry_is_cleartext(self.external_egress@[i]))
    }

    /// The positions of the scopes granting more than read access.
    pub open spec fn elevated_positions(self) -> Seq<int> {
        kept_positions(self.scopes@.len(), |i: int| verb_is_elevated(self.scopes@[i].verb))
    }

    /// Egress destinations spelled `*` or `*.<tld>`, in manifest order.
    pub fn overly_broad_egress(&self) -> (r: Vec<usize>)
        ensures
            positions_of(r@, self.external_egress@.len() as int, self.external_egress@.len(),
                |i: int| pattern_is_overly_broad(self.external_egress@[i].pattern)),
            r@.map_values(|i: usize| i as int) == self.overly_broad_positions(),
            forall|k: int| 0 <= k < self.external_egress@.len() ==> (pattern_is_overly_broad(self.external_egress@[k].pattern) <==> r@.contains(k as usize)),
    {
        let ghost keep = |i: int| pattern_is_overly_broad(self.external_egress@[i].pattern);
        let ghost n = self.external_egress@.len();
        let mut out: Vec<usize> = Vec::new();
        proof {
            lemma_no_positions(n, keep);
        }
        let mut i: usize = 0;
        while i < self.external_egress.len()
            invariant
                i <= self.external_egress.len(),
                n == self.external_egress@.len(),
                keep == (|i: int| pattern_is_overly_broad(self.external_egress@[i].pattern)),
                positions_of(out@, i as int, n, keep),
            decreases self.external_egress.len() - i,
        {
            let ghost before = out@;
            if self.external_egress[i].is_overly_broad() {
                out.push(i);
            }
            proof {
                lemma_next_position(before, out@, i, n, keep);
            }
            i = i + 1;
        }
        proof {
            lemma_all_positions(out@, n, keep);
            assert forall|k: int| 0 <= k < n implies (pattern_is_overly_broad(self.external_egress@[k].pattern) <==> out@.contains(k as usize)) by {
                assert(keep(k) == pattern_is_overly_broad(self.external_egress@[k].pattern));
            }
        }
        out
    }

    /// Egress destinations that name a cleartext transport, in manifest order.
    pub fn cleartext_egress(&self) -> (r: Vec<usize>)
        ensures
            positions_of(r@, self.external_egress@.len() as int, self.external_egress@.len(),
                |i: int| entry_is_cleartext(self.external_egress@[i])),
            r@.map_values(|i: usize| i as int) == self.cleartext_positions(),
            forall|k: int| 0 <= k < self.external_egress@.len() ==> (entry_is_cleartext(self.external_egress@[k]) <==> r@.contains(k as usize)),
    {
        let ghost keep = |i: int| entry_is_cleartext(self.external_egress@[i]);
        let ghost n = self.external_egress@.len();
        let mut out: Vec<usize> = Vec::new();
        proof {
            lemma_no_positions(n, keep);
        }
        let mut i: usize = 0;
        while i < self.external_egress.len()
            invariant
                i <= self.external_egress.len(),
                n == self.external_egress@.len(),
                keep == (|i: int| entry_is_cleartext(self.external_egress@[i])),
                positions_of(out@, i as int, n, keep),
            decreases self.external_egress.len() - i,
        {
            let ghost before = out@;
            if self.external_egress[i].is_cleartext() {
                out.push(i);
            }
            proof {
                lemma_next_position(before, out@, i, n, keep);
            }
            i = i + 1;
        }
        proof {
            lemma_all_positions(out@, n, keep);
            assert forall|k: int| 0 <= k < n implies (entry_is_cleartext(self.external_egress@[k]) <==> out@.contains(k as usize)) by {
                assert(keep(k) == entry_is_cleartext(self.external_egress@[k]));
            }
        }
        out
    }

    /// Declared scopes granting more than read access, in manifest order.
    pub fn elevated_scopes(&self) -> (r: Vec<usize>)
        ensures
            positions_of(r@, self.scopes@.len() as int, self.scopes@.len(),
                |i: int| verb_is_elevated(self.scopes@[i].verb)),
            r@.map_values(|i: usize| i as int) == self.elevated_positions(),
            forall|k: int| 0 <= k < self.scopes@.len() ==> (verb_is_elevated(self.scopes@[k].verb) <==> r@.contains(k as usize)),
    {
        let ghost keep = |i: int| verb_is_elevated(self.scopes@[i].verb);
        let ghost n = self.scopes@.len();
        let mut out: Vec<usize> = Vec::new();
        proof {
            lemma_no_positions(n, keep);
        }
        let mut i: usize = 0;
        while i < self.scopes.len()
            invariant
                i <= self.scopes.len(),
                n == self.scopes@.len(),
                keep == (|i: int| verb_is_elevated(self.scopes@[i].verb)),
                positions_of(out@, i as int, n, keep),
            decreases self.scopes.len() - i,
        {
            let ghost before = out@;
            if self.scopes[i].verb.is_elevated() {
                out.push(i);
            }
            proof {
                lemma_next_position(before, out@, i, n, keep);
            }
            i = i + 1;
        }
        proof {
            lemma_all_positions(out@, n, keep);
            assert forall|k: int| 0 <= k < n implies (verb_is_elevated(self.scopes@[k].verb) <==> out@.contains(k as usize)) by {
                assert(keep(k) == verb_is_elevated(self.scopes@[k].verb));
            }
        }
        out
    }
}

/// The positions below `len` that `keep` holds of, in ascending order.
pub open spec fn kept_positions(len: nat, keep: spec_fn(int) -> bool) -> Seq<int> {
    Seq::new(len, |i: int| i).filter(keep)
}

/// `out` lists, strictly ascending, exactly the positions below `upto` that
/// `keep` holds of, out of `len` positions in all.
pub open spec fn positions_of(out: Seq<usize>, upto: int, len: nat, keep: spec_fn(int) -> bool) -> bool {
    &&& 0 <= upto <= len
    &&& forall|k: int| 0 <= k < out.len() ==> out[k] < upto
    &&& forall|a: int, b: int| 0 <= a < b < out.len() ==> out[a] < out[b]
    &&& forall|k: int| #![trigger keep(k)] 0 <= k < upto ==> (keep(k) <==> out.contains(k as usize))
    &&& out.map_values(|i: usize| i as int) == Seq::new(len, |i: int| i).take(upto).filter(keep)
}

/// Before any position is looked at, none is listed.
proof fn lemma_no_positions(len: nat, keep: spec_fn(int) -> bool)
    ensures
        positions_of(Seq::empty(), 0, len, keep),
{
    reveal_with_fuel(Seq::<_>::filter, 1);
    let none = Seq::new(len, |i: int| i).take(0);
    assert(none.len() == 0);
    assert(Seq::<usize>::empty().map_values(|i: usize| i as int) =~= none.filter(keep));
}

/// Looking at one more position keeps `positions_of`: the position is added
/// exactly when `keep` holds of it.
proof fn lemma_next_position(
    before: Seq<usize>,
    after: Seq<usize>,
    i: usize,
    len: nat,
    keep: spec_fn(int) -> bool,
)
    requires
        i < len,
        positions_of(before, i as int, len, keep),
        after == if keep(i as int) {
            before.push(i)
        } else {
            before
        },
    ensures
        positions_of(after, i + 1, len, keep),
{
    let all = Seq::new(len, |j: int| j);
    reveal_with_fuel(Seq::<_>::filter, 1);
    assert(all.take(i + 1).drop_last() =~= all.take(i as int));
    if keep(i as int) {
        assert(after[before.len() as int] == i);
        assert(after.map_values(|j: usize| j as int) =~= before.map_values(|j: usize| j as int).push(
            i as int,
        ));
    }
    assert forall|k: int| 0 <= k < i + 1 implies (#[trigger] keep(k) <==> after.contains(k as usize)) by {
        if k < i {
            if before.contains(k as usize) {
                let m = choose|m: int| 0 <= m < before.len() && before[m] == k as usize;
                assert(after[m] == k as usize);
            }
            if after.contains(k as usize) {
                let m = choose|m: int| 0 <= m < after.len() && after[m] == k as usize;
                if m < before.len() {
                    assert(before[m] == k as usize);
                }
            }
        } else {
            if after.contains(k as usize) {
                let m = choose|m: int| 0 <= m < after.len() && after[m] == k as usize;
                if m < before.len() {
                    assert(before[m] < i);
                }
            }
        }
    }
}

/// Once every position has been looked at, the list is the kept positions.
proof fn lemma_all_positions(out: Seq<usize>, len: nat, keep: spec_fn(int) -> bool)
    requires
        positions_of(out, len as int, len, keep),
    ensures
        out.map_values(|i: usize| i as int) == kept_positions(len, keep),
{
    let all = Seq::new(len, |j: int| j);
    assert(all.take(len as int) =~= all);
}

} // verus!
