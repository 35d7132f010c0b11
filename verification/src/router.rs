//! The aggregate provider: one lazy slot per domain, dispatching every
//! request to the one domain that owns its key.
//!
//! The adapters are tried in the fixed order of [`crate::domain::domain_order`]; the order
//! never depends on the request.  The first owner answers — a payload, an
//! enumeration, or its own failure — and the dispatch stops there: a
//! domain's failure is never masked by trying later domains.  A key no
//! domain owns is an unsupported-key error carrying that key.

use vstd::prelude::*;
use crate::domain::{claims_key, first_claimant, DataError, DataResponse, Domain, ErrorView};
use crate::entries::{DomainSource, RawEntryView};
use crate::lazy::{
    slot_wf, spec_enumerate_outcome, spec_load_outcome, spec_slot_after, LazyProvider, SlotView,
};
use crate::resource::{DataRequest, OptionsView, ResourceKey, ResourceOptions};

verus! {

/// One external data source per domain, handed to each call.  The provider
/// core performs no I/O of its own: whoever gathers the sources owns the
/// medium and the format.
#[derive(Debug)]
pub struct SourceSet {
    pub dates: DomainSource,
    pub likelysubtags: DomainSource,
    pub numbers: DomainSource,
    pub plurals: DomainSource,
    pub timezones: DomainSource,
}

/// The source that domain `d` builds from.
pub open spec fn source_of(s: SourceSet, d: Domain) -> Option<Seq<RawEntryView>> {
    match d {
        Domain::Dates => s.dates@,
        Domain::LikelySubtags => s.likelysubtags@,
        Domain::Numbers => s.numbers@,
        Domain::Plurals => s.plurals@,
        Domain::TimeZones => s.timezones@,
    }
}

/// The aggregate provider over the five domains.  Stateless with respect to
/// requests beyond the per-domain lazy build status: slots only ever move
/// from empty to built, never back.
#[derive(Debug)]
pub struct CldrJsonDataProvider {
    pub dates: LazyProvider,
    pub likelysubtags: LazyProvider,
    pub numbers: LazyProvider,
    pub plurals: LazyProvider,
    pub timezones: LazyProvider,
}

/// The slot that serves domain `d`.
pub open spec fn slot_of(p: CldrJsonDataProvider, d: Domain) -> SlotView {
    match d {
        Domain::Dates => p.dates@,
        Domain::LikelySubtags => p.likelysubtags@,
        Domain::Numbers => p.numbers@,
        Domain::Plurals => p.plurals@,
        Domain::TimeZones => p.timezones@,
    }
}

/// Every slot is tagged with its own domain and holds well-formed entries.
pub open spec fn provider_wf(p: CldrJsonDataProvider) -> bool {
    forall|d: Domain|
        (#[trigger] slot_of(p, d)).domain == d && slot_wf(slot_of(p, d))
}

impl CldrJsonDataProvider {
    /// A fresh provider with every domain unbuilt.
    pub fn new() -> (r: Self)
        ensures
            provider_wf(r),
            forall|d: Domain| (#[trigger] slot_of(r, d)).built is None,
    {
        CldrJsonDataProvider {
            dates: LazyProvider::new(Domain::Dates),
            likelysubtags: LazyProvider::new(Domain::LikelySubtags),
            numbers: LazyProvider::new(Domain::Numbers),
            plurals: LazyProvider::new(Domain::Plurals),
            timezones: LazyProvider::new(Domain::TimeZones),
        }
    }

    /// A static, instance-independent capability check: does some domain in
    /// this aggregate own the key at all?  It builds nothing.
    pub fn supports_key(key: &ResourceKey) -> (r: Result<(), DataError>)
        ensures
            r is Ok <==> first_claimant(key@) is Some,
            r matches Err(e) ==> e@ == ErrorView::UnsupportedResourceKey(key@),
    {
        if claims_key(Domain::Dates, key) || claims_key(Domain::LikelySubtags, key)
            || claims_key(Domain::Numbers, key) || claims_key(Domain::Plurals, key)
            || claims_key(Domain::TimeZones, key) {
            Ok(())
        } else {
            Err(DataError::UnsupportedResourceKey(key.clone()))
        }
    }

    /// Loads the payload for one request.
    ///
    /// Routing: the request goes to the one domain that owns its key and to
    /// no other — that domain's slot takes exactly one build step and every
    /// other slot is untouched, whatever has been built before.  The owner's
    /// outcome is returned verbatim: in particular its failure is never
    /// downgraded to trying later adapters.  A key without an owner is
    /// answered with the unsupported-key error carrying that key.
    pub fn load_payload(&mut self, req: &DataRequest, sources: &SourceSet) -> (r: Result<
        DataResponse,
        DataError,
    >)
        requires
            provider_wf(*old(self)),
        ensures
            provider_wf(*final(self)),
            forall|d: Domain|
                #[trigger] slot_of(*final(self), d) == if first_claimant(req@.key) == Some(d) {
                    spec_slot_after(slot_of(*old(self), d), source_of(*sources, d))
                } else {
                    slot_of(*old(self), d)
                },
            match first_claimant(req@.key) {
                Some(d) => match spec_load_outcome(
                    slot_of(*old(self), d),
                    source_of(*sources, d),
                    req@,
                ) {
                    Ok(resp) => r matches Ok(x) && x@ == resp,
                    Err(e) => r matches Err(err) && err@ == e,
                },
                None => r matches Err(err) && err@ == ErrorView::UnsupportedResourceKey(req@.key),
            },
    {
        proof {
            assert(slot_of(*self, Domain::Dates) == self.dates@);
            assert(slot_of(*self, Domain::LikelySubtags) == self.likelysubtags@);
            assert(slot_of(*self, Domain::Numbers) == self.numbers@);
            assert(slot_of(*self, Domain::Plurals) == self.plurals@);
            assert(slot_of(*self, Domain::TimeZones) == self.timezones@);
        }
        if claims_key(Domain::Dates, &req.key) {
            return self.dates.load(req, &sources.dates);
        }
        if claims_key(Domain::LikelySubtags, &req.key) {
            return self.likelysubtags.load(req, &sources.likelysubtags);
        }
        if claims_key(Domain::Numbers, &req.key) {
            return self.numbers.load(req, &sources.numbers);
        }
        if claims_key(Domain::Plurals, &req.key) {
            return self.plurals.load(req, &sources.plurals);
        }
        if claims_key(Domain::TimeZones, &req.key) {
            return self.timezones.load(req, &sources.timezones);
        }
        Err(DataError::UnsupportedResourceKey(req.key.clone()))
    }

    /// Enumerates every option-set the owning domain supports for `key`, as
    /// a single-pass sequence in the domain's entry order.  The dispatch,
    /// the one-step/untouched routing guarantee, and the error policy are
    /// exactly those of [`Self::load_payload`].
    pub fn supported_options_for_key(&mut self, key: &ResourceKey, sources: &SourceSet) -> (r:
        Result<OptionsCursor, DataError>)
        requires
            provider_wf(*old(self)),
        ensures
            provider_wf(*final(self)),
            forall|d: Domain|
                #[trigger] slot_of(*final(self), d) == if first_claimant(key@) == Some(d) {
                    spec_slot_after(slot_of(*old(self), d), source_of(*sources, d))
                } else {
                    slot_of(*old(self), d)
                },
            match first_claimant(key@) {
                Some(d) => match spec_enumerate_outcome(
                    slot_of(*old(self), d),
                    source_of(*sources, d),
                    key@,
                ) {
                    Ok(opts) => r matches Ok(c) && c@ == opts && c.wf(),
                    Err(e) => r matches Err(err) && err@ == e,
                },
                None => r matches Err(err) && err@ == ErrorView::UnsupportedResourceKey(key@),
            },
    {
        proof {
            assert(slot_of(*self, Domain::Dates) == self.dates@);
            assert(slot_of(*self, Domain::LikelySubtags) == self.likelysubtags@);
            assert(slot_of(*self, Domain::Numbers) == self.numbers@);
            assert(slot_of(*self, Domain::Plurals) == self.plurals@);
            assert(slot_of(*self, Domain::TimeZones) == self.timezones@);
        }
        if claims_key(Domain::Dates, key) {
            return match self.dates.enumerate(key, &sources.dates) {
                Ok(v) => Ok(OptionsCursor::new(v)),
                Err(e) => Err(e),
            };
        }
        if claims_key(Domain::LikelySubtags, key) {
            return match self.likelysubtags.enumerate(key, &sources.likelysubtags) {
                Ok(v) => Ok(OptionsCursor::new(v)),
                Err(e) => Err(e),
            };
        }
        if claims_key(Domain::Numbers, key) {
            return match self.numbers.enumerate(key, &sources.numbers) {
                Ok(v) => Ok(OptionsCursor::new(v)),
                Err(e) => Err(e),
            };
        }
        if claims_key(Domain::Plurals, key) {
            return match self.plurals.enumerate(key, &sources.plurals) {
                Ok(v) => Ok(OptionsCursor::new(v)),
                Err(e) => Err(e),
            };
        }
        if claims_key(Domain::TimeZones, key) {
            return match self.timezones.enumerate(key, &sources.timezones) {
                Ok(v) => Ok(OptionsCursor::new(v)),
                Err(e) => Err(e),
            };
        }
        Err(DataError::UnsupportedResourceKey(key.clone()))
    }
}

/// A lazy, non-restartable view of an enumeration: one forward pass, each
/// element yielded exactly once, never rewound.
#[derive(Debug)]
pub struct OptionsCursor {
    items: Vec<ResourceOptions>,
    pos: usize,
}

impl View for OptionsCursor {
    type V = Seq<OptionsView>;

    /// What the pass has still to yield.
    closed spec fn view(&self) -> Seq<OptionsView> {
        self.items.deep_view().skip(self.pos as int)
    }
}

impl OptionsCursor {
    /// The pass never stands past its backing storage.
    pub closed spec fn wf(&self) -> bool {
        self.pos <= self.items@.len()
    }

    /// Wraps a materialized enumeration as a single forward pass over all
    /// of it.
    pub fn new(items: Vec<ResourceOptions>) -> (r: Self)
        ensures
            r.wf(),
            r@ == items.deep_view(),
    {
        let r = OptionsCursor { items, pos: 0 };
        proof {
            assert(r@ =~= r.items.deep_view());
        }
        r
    }

    /// The next option of the pass: the remaining sequence is consumed
    /// front to back and never grows back.
    pub fn next(&mut self) -> (r: Option<ResourceOptions>)
        requires
            old(self).wf(),
        ensures
            final(self).wf(),
            old(self)@.len() == 0 ==> r is None && final(self)@ == old(self)@,
            old(self)@.len() > 0 ==> (r matches Some(o) && o@ == old(self)@[0] && final(self)@
                == old(self)@.drop_first()),
    {
        if self.pos < self.items.len() {
            let o = self.items[self.pos].clone();
            proof {
                assert(self.items.deep_view()[self.pos as int] == self.items@[self.pos as int]@);
                assert(old(self)@[0] == self.items.deep_view()[self.pos as int]);
            }
            self.pos = self.pos + 1;
            proof {
                assert(self@ =~= old(self)@.drop_first());
            }
            Some(o)
        } else {
            None
        }
    }
}

} // verus!
