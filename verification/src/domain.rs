//! The closed set of data domains, key ownership, errors, and responses.
//!
//! Each domain owns one slice of the key space, decided by the key's
//! category tag.  The five category tags are pairwise distinct, so every
//! key has at most one owner (`lemma_claimant_unique`).

use vstd::prelude::*;
use crate::plurals::{PluralRuleStringsV1, PluralRulesView};
use crate::resource::{KeyView, OptionsView, ResourceKey, ResourceOptions};
use vstd::slice::slice_to_vec;

verus! {

/// The closed, tagged set of data domains an aggregate provider dispatches
/// over.  The declaration order is also the fixed dispatch order.
#[derive(Debug, Clone, Copy, PartialEq, Eq, Hash, Structural)]
pub enum Domain {
    Dates,
    LikelySubtags,
    Numbers,
    Plurals,
    TimeZones,
}

/// The category tag that domain `d` claims.
pub open spec fn domain_category(d: Domain) -> Seq<char> {
    match d {
        Domain::Dates => "dates"@,
        Domain::LikelySubtags => "likelysubtags"@,
        Domain::Numbers => "numbers"@,
        Domain::Plurals => "plurals"@,
        Domain::TimeZones => "time_zones"@,
    }
}

/// Does domain `d` own key `k`?  Ownership is decided by the category tag
/// alone; an unknown sub-category or version within an owned category is
/// the owner's failure, never another domain's business.
pub open spec fn claims(d: Domain, k: KeyView) -> bool {
    k.category == domain_category(d)
}

/// The fixed dispatch order.  It never depends on the request.
pub open spec fn domain_order() -> Seq<Domain> {
    seq![
        Domain::Dates,
        Domain::LikelySubtags,
        Domain::Numbers,
        Domain::Plurals,
        Domain::TimeZones,
    ]
}

/// The first domain in the fixed order that claims `k`, if any.  By
/// `lemma_claimant_unique` it is also the only claimant.
pub open spec fn first_claimant(k: KeyView) -> Option<Domain> {
    if claims(Domain::Dates, k) {
        Some(Domain::Dates)
    } else if claims(Domain::LikelySubtags, k) {
        Some(Domain::LikelySubtags)
    } else if claims(Domain::Numbers, k) {
        Some(Domain::Numbers)
    } else if claims(Domain::Plurals, k) {
        Some(Domain::Plurals)
    } else if claims(Domain::TimeZones, k) {
        Some(Domain::TimeZones)
    } else {
        None
    }
}

/// Key ownership is disjoint: no key is claimed by two domains.
pub proof fn lemma_claimant_unique(d1: Domain, d2: Domain, k: KeyView)
    requires
        claims(d1, k),
        claims(d2, k),
    ensures
        d1 == d2,
{
    reveal_strlit("dates");
    reveal_strlit("likelysubtags");
    reveal_strlit("numbers");
    reveal_strlit("plurals");
    reveal_strlit("time_zones");
    assert(("dates"@).len() == 5);
    assert(("likelysubtags"@).len() == 13);
    assert(("numbers"@).len() == 7);
    assert(("plurals"@).len() == 7);
    assert(("time_zones"@).len() == 10);
    assert(("numbers"@)[0] == 'n');
    assert(("plurals"@)[0] == 'p');
}

/// The fixed order lists every domain, each exactly once.
pub proof fn lemma_domain_order_complete(d: Domain)
    ensures
        domain_order().contains(d),
        domain_order().len() == 5,
{
    match d {
        Domain::Dates => assert(domain_order()[0] == d),
        Domain::LikelySubtags => assert(domain_order()[1] == d),
        Domain::Numbers => assert(domain_order()[2] == d),
        Domain::Plurals => assert(domain_order()[3] == d),
        Domain::TimeZones => assert(domain_order()[4] == d),
    }
}

/// `first_claimant` searches exactly the fixed order: what it yields claims
/// the key, and it yields nothing only when no domain at all claims it.
pub proof fn lemma_first_claimant_complete(k: KeyView)
    ensures
        first_claimant(k) matches Some(d) ==> claims(d, k),
        first_claimant(k) is None <==> (forall|d: Domain| !claims(d, k)),
{
    if first_claimant(k) is None {
        assert forall|d: Domain| !claims(d, k) by {
            match d {
                Domain::Dates => {},
                Domain::LikelySubtags => {},
                Domain::Numbers => {},
                Domain::Plurals => {},
                Domain::TimeZones => {},
            }
        }
    }
}

/// Routing is by ownership alone: whenever a domain owns a key, it is
/// exactly the domain the dispatch selects — regardless of anything else.
/// With the dispatch contracts of the aggregate provider this says that a
/// request whose key belongs to domain `d` reaches `d` and no other.
pub proof fn lemma_routing_by_ownership(d: Domain, k: KeyView)
    requires
        claims(d, k),
    ensures
        first_claimant(k) == Some(d),
{
    lemma_first_claimant_complete(k);
    let d2 = first_claimant(k).unwrap();
    lemma_claimant_unique(d, d2, k);
}

/// Decides whether domain `d` owns `key`.
pub fn claims_key(d: Domain, key: &ResourceKey) -> (r: bool)
    ensures
        r == claims(d, key@),
{
    match d {
        Domain::Dates => key.category == "dates".to_owned(),
        Domain::LikelySubtags => key.category == "likelysubtags".to_owned(),
        Domain::Numbers => key.category == "numbers".to_owned(),
        Domain::Plurals => key.category == "plurals".to_owned(),
        Domain::TimeZones => key.category == "time_zones".to_owned(),
    }
}

/// The mathematical value of a [`DataError`].
pub enum ErrorView {
    UnsupportedResourceKey(KeyView),
    DomainLoadFailure(Domain, KeyView),
    MisconfiguredEnvironment(Domain),
}

/// The tagged error surface of every public operation.
#[derive(Debug, PartialEq, Eq)]
pub enum DataError {
    /// No domain claims the requested key; carries the offending key for
    /// diagnostics.  Not retryable without changing the request.
    UnsupportedResourceKey(ResourceKey),
    /// A domain owned the key but could not produce data: a malformed
    /// source, or an option not found within an otherwise-supported key.
    /// Carries the originating domain and key.  Retryable once the
    /// underlying condition is fixed; a failed build is never cached.
    DomainLoadFailure(Domain, ResourceKey),
    /// The domain's external data source is absent entirely.  This is fatal
    /// for the whole provider instance, not just one request; it surfaces
    /// on the first request that reaches the domain, since construction
    /// itself touches no source.
    MisconfiguredEnvironment(Domain),
}

impl View for DataError {
    type V = ErrorView;

    open spec fn view(&self) -> ErrorView {
        match self {
            DataError::UnsupportedResourceKey(k) => ErrorView::UnsupportedResourceKey(k@),
            DataError::DomainLoadFailure(d, k) => ErrorView::DomainLoadFailure(*d, k@),
            DataError::MisconfiguredEnvironment(d) => ErrorView::MisconfiguredEnvironment(*d),
        }
    }
}

/// The mathematical value of a [`Payload`].
pub enum PayloadView {
    PluralRules(PluralRulesView),
    Opaque(Seq<u8>),
}

/// A typed payload served in a response.  The plurals domain serves decoded
/// plural-rules records; the payload shapes of the remaining domains are
/// owned by their own loaders and are carried through here as opaque bytes.
#[derive(Debug, PartialEq, Eq)]
pub enum Payload {
    PluralRules(PluralRuleStringsV1),
    Opaque(Vec<u8>),
}

impl View for Payload {
    type V = PayloadView;

    open spec fn view(&self) -> PayloadView {
        match self {
            Payload::PluralRules(rec) => PayloadView::PluralRules(rec@),
            Payload::Opaque(bytes) => PayloadView::Opaque(bytes@),
        }
    }
}

impl DeepView for Payload {
    type V = PayloadView;

    open spec fn deep_view(&self) -> PayloadView {
        self.view()
    }
}

impl Clone for Payload {
    fn clone(&self) -> (res: Self)
        ensures
            res@ == self@,
    {
        match self {
            Payload::PluralRules(rec) => Payload::PluralRules(rec.clone()),
            Payload::Opaque(bytes) => Payload::Opaque(slice_to_vec(bytes.as_slice())),
        }
    }
}

/// The mathematical value of a [`DataResponse`].
pub struct ResponseView {
    pub payload: PayloadView,
    pub options: OptionsView,
}

/// A successful answer to a load: the payload, plus the options that were
/// actually matched.  The payload is owned data; a caller may hold it for
/// as long as it likes.
#[derive(Debug, PartialEq, Eq)]
pub struct DataResponse {
    pub payload: Payload,
    pub options: ResourceOptions,
}

impl View for DataResponse {
    type V = ResponseView;

    open spec fn view(&self) -> ResponseView {
        ResponseView { payload: self.payload@, options: self.options@ }
    }
}

} // verus!
