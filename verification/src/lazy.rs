//! The lazy, memoizing wrapper around one domain's construction.
//!
//! A [`LazyProvider`] is created empty and transitions to built at most
//! once, on the first claimed request that reaches it; it never transitions
//! back.  A failed build is *not* cached: the next call attempts the build
//! again, so a source fixed between calls can still succeed.  Once built,
//! every later call returns the identical built entries and never re-runs
//! the build, whatever source it is handed.
//!
//! Construction is exactly-once by the type discipline itself: building
//! takes `&mut self`, so no two callers can race the first build; a caller
//! that shares a provider across threads wraps it in a lock of its own and
//! readers of the built value are never blocked by this module.

use vstd::prelude::*;
use crate::domain::{DataError, DataResponse, Domain, ErrorView, ResponseView};
use crate::entries::{
    build_entries, distinct_options, entries_wf, has_address, lemma_build_entries_wf,
    lemma_enumeration_exact, spec_build_entries, spec_lookup, spec_options_for, DomainSource,
    EntryView, RawEntryView, ResourceEntry,
};
use crate::resource::{
    key_eq, options_eq, DataRequest, KeyView, OptionsView, RequestView, ResourceKey,
    ResourceOptions,
};

verus! {

/// The mathematical state of a lazy slot: not yet built, or built entries.
pub struct SlotView {
    pub domain: Domain,
    pub built: Option<Seq<EntryView>>,
}

/// A slot's built entries, if any, are well-formed for its domain: every
/// entry is the domain's own and no address repeats.  Fresh slots have it,
/// and every operation preserves it.
pub open spec fn slot_wf(s: SlotView) -> bool {
    match s.built {
        Some(es) => entries_wf(s.domain, es),
        None => true,
    }
}

/// Outcome of attempting to build a domain from a source.
pub enum BuildOutcome {
    Built(Seq<EntryView>),
    Misconfigured,
    Malformed,
}

/// What building domain `d` from source `src` yields: a missing source is a
/// misconfigured environment; a present source builds, or is malformed.
pub open spec fn spec_build_outcome(d: Domain, src: Option<Seq<RawEntryView>>) -> BuildOutcome {
    match src {
        None => BuildOutcome::Misconfigured,
        Some(raw) => match spec_build_entries(d, raw) {
            Some(es) => BuildOutcome::Built(es),
            None => BuildOutcome::Malformed,
        },
    }
}

/// The slot state after one [`LazyProvider::with_built`] call: an
/// already-built slot never changes, whatever the source; an empty slot
/// becomes built exactly when the build succeeds, and stays empty otherwise
/// — failures are not cached.
pub open spec fn spec_slot_after(s: SlotView, src: Option<Seq<RawEntryView>>) -> SlotView {
    match s.built {
        Some(_) => s,
        None => match spec_build_outcome(s.domain, src) {
            BuildOutcome::Built(es) => SlotView { domain: s.domain, built: Some(es) },
            BuildOutcome::Misconfigured => s,
            BuildOutcome::Malformed => s,
        },
    }
}

/// The entries a call serves from, or the error it reports: the cached
/// entries if already built, otherwise the outcome of this build.  `k` is
/// the requested key, carried into the domain-failure error.
pub open spec fn spec_slot_entries(
    s: SlotView,
    src: Option<Seq<RawEntryView>>,
    k: KeyView,
) -> Result<Seq<EntryView>, ErrorView> {
    match s.built {
        Some(es) => Ok(es),
        None => match spec_build_outcome(s.domain, src) {
            BuildOutcome::Built(es) => Ok(es),
            BuildOutcome::Misconfigured => Err(ErrorView::MisconfiguredEnvironment(s.domain)),
            BuildOutcome::Malformed => Err(ErrorView::DomainLoadFailure(s.domain, k)),
        },
    }
}

/// What a claimed load yields: build errors surface; otherwise the address
/// is looked up, a missing address being the owning domain's failure.
pub open spec fn spec_load_outcome(
    s: SlotView,
    src: Option<Seq<RawEntryView>>,
    req: RequestView,
) -> Result<ResponseView, ErrorView> {
    match spec_slot_entries(s, src, req.key) {
        Err(e) => Err(e),
        Ok(es) => match spec_lookup(es, req.key, req.options) {
            Some(p) => Ok(ResponseView { payload: p, options: req.options }),
            None => Err(ErrorView::DomainLoadFailure(s.domain, req.key)),
        },
    }
}

/// What a claimed enumeration yields: build errors surface; otherwise every
/// option the domain supports for the key, in entry order.
pub open spec fn spec_enumerate_outcome(
    s: SlotView,
    src: Option<Seq<RawEntryView>>,
    k: KeyView,
) -> Result<Seq<OptionsView>, ErrorView> {
    match spec_slot_entries(s, src, k) {
        Err(e) => Err(e),
        Ok(es) => Ok(spec_options_for(es, k)),
    }
}

/// A one-shot memoizing cell around one domain's construction.  The cell
/// itself is never exposed: callers reach the built entries only through
/// the get-or-build operations below.
#[derive(Debug)]
pub struct LazyProvider {
    domain: Domain,
    built: Option<Vec<ResourceEntry>>,
}

impl View for LazyProvider {
    type V = SlotView;

    closed spec fn view(&self) -> SlotView {
        SlotView {
            domain: self.domain,
            built: match self.built {
                Some(es) => Some(es.deep_view()),
                None => None,
            },
        }
    }
}

/// Looks the request's address up in a built domain's entries.
fn lookup_entry(d: Domain, es: &Vec<ResourceEntry>, req: &DataRequest) -> (r: Result<
    DataResponse,
    DataError,
>)
    ensures
        match spec_lookup(es.deep_view(), req@.key, req@.options) {
            Some(p) => r matches Ok(resp) && resp@ == (ResponseView {
                payload: p,
                options: req@.options,
            }),
            None => r matches Err(e) && e@ == ErrorView::DomainLoadFailure(d, req@.key),
        },
{
    let ghost esv = es.deep_view();
    let mut i: usize = 0;
    proof {
        assert(esv.skip(0) =~= esv);
    }
    while i < es.len()
        invariant
            0 <= i <= es.len(),
            esv == es.deep_view(),
            esv.len() == es@.len(),
            spec_lookup(esv, req@.key, req@.options) == spec_lookup(
                esv.skip(i as int),
                req@.key,
                req@.options,
            ),
        decreases es@.len() - i,
    {
        let e = &es[i];
        proof {
            assert(esv[i as int] == es@[i as int]@);
            assert(esv.skip(i as int)[0] == esv[i as int]);
        }
        if key_eq(&e.key, &req.key) && options_eq(&e.options, &req.options) {
            return Ok(DataResponse { payload: e.payload.clone(), options: req.options.clone() });
        }
        proof {
            assert(esv.skip(i as int).drop_first() =~= esv.skip(i as int + 1));
        }
        i += 1;
    }
    proof {
        assert(esv.skip(i as int).len() == 0);
    }
    Err(DataError::DomainLoadFailure(d, req.key.clone()))
}

/// Collects the options supported for `key`, in entry order.
fn options_for_exec(es: &Vec<ResourceEntry>, key: &ResourceKey) -> (r: Vec<ResourceOptions>)
    ensures
        r.deep_view() == spec_options_for(es.deep_view(), key@),
{
    let ghost esv = es.deep_view();
    let mut out: Vec<ResourceOptions> = Vec::new();
    let mut i: usize = 0;
    proof {
        assert(esv.take(0) =~= Seq::<EntryView>::empty());
        assert(out.deep_view() =~= spec_options_for(esv.take(0), key@));
    }
    while i < es.len()
        invariant
            0 <= i <= es.len(),
            esv == es.deep_view(),
            esv.len() == es@.len(),
            out.deep_view() == spec_options_for(esv.take(i as int), key@),
        decreases es@.len() - i,
    {
        let e = &es[i];
        proof {
            assert(esv[i as int] == es@[i as int]@);
            assert(esv.take(i as int + 1).drop_last() =~= esv.take(i as int));
            assert(esv.take(i as int + 1).last() == esv[i as int]);
        }
        let ghost old_out = out.deep_view();
        if key_eq(&e.key, key) {
            out.push(e.options.clone());
            proof {
                assert(out.deep_view() =~= old_out.push(es@[i as int]@.options));
                assert(out.deep_view() =~= old_out + seq![esv[i as int].options]);
            }
        } else {
            proof {
                assert(out.deep_view() =~= old_out + Seq::<OptionsView>::empty());
            }
        }
        i += 1;
    }
    proof {
        assert(esv.take(i as int) =~= esv);
    }
    out
}

impl LazyProvider {
    /// A fresh, unbuilt slot for domain `d`.
    pub fn new(d: Domain) -> (r: Self)
        ensures
            r@ == (SlotView { domain: d, built: None::<Seq<EntryView>> }),
    {
        LazyProvider { domain: d, built: None }
    }

    /// Is the slot built?  Observation only; it never triggers a build.
    pub fn is_built(&self) -> (r: bool)
        ensures
            r == (self@.built is Some),
    {
        self.built.is_some()
    }

    /// Gives the slot its built entries, building from `src` on the first
    /// call: a cached value is returned as is and the build is not re-run; a
    /// successful build is stored; a failed build leaves the slot empty.
    /// `key` is the requested key, carried into the domain-failure error.
    pub fn with_built(&mut self, src: &DomainSource, key: &ResourceKey) -> (r: Result<
        (),
        DataError,
    >)
        requires
            slot_wf(old(self)@),
        ensures
            slot_wf(final(self)@),
            final(self)@ == spec_slot_after(old(self)@, src@),
            match spec_slot_entries(old(self)@, src@, key@) {
                Ok(es) => r is Ok && final(self)@.built == Some(es),
                Err(e) => r matches Err(err) && err@ == e && final(self)@ == old(self)@,
            },
    {
        if self.built.is_some() {
            return Ok(());
        }
        match src {
            DomainSource::Missing => Err(DataError::MisconfiguredEnvironment(self.domain)),
            DomainSource::Available(raw) => match build_entries(self.domain, raw) {
                Some(es) => {
                    proof {
                        lemma_build_entries_wf(self.domain, raw.deep_view());
                    }
                    self.built = Some(es);
                    Ok(())
                },
                None => Err(DataError::DomainLoadFailure(self.domain, key.clone())),
            },
        }
    }

    /// Serves a claimed request: builds if needed, then looks up the
    /// request's address.
    pub fn load(&mut self, req: &DataRequest, src: &DomainSource) -> (r: Result<
        DataResponse,
        DataError,
    >)
        requires
            slot_wf(old(self)@),
        ensures
            slot_wf(final(self)@),
            final(self)@ == spec_slot_after(old(self)@, src@),
            match spec_load_outcome(old(self)@, src@, req@) {
                Ok(resp) => r matches Ok(x) && x@ == resp,
                Err(e) => r matches Err(err) && err@ == e,
            },
    {
        match self.with_built(src, &req.key) {
            Err(e) => Err(e),
            Ok(()) => match &self.built {
                Some(es) => lookup_entry(self.domain, es, req),
                None => {
                    proof {
                        assert(false);
                    }
                    Err(DataError::MisconfiguredEnvironment(self.domain))
                },
            },
        }
    }

    /// Enumerates every option the domain supports for `key`, building
    /// first if needed.
    pub fn enumerate(&mut self, key: &ResourceKey, src: &DomainSource) -> (r: Result<
        Vec<ResourceOptions>,
        DataError,
    >)
        requires
            slot_wf(old(self)@),
        ensures
            slot_wf(final(self)@),
            final(self)@ == spec_slot_after(old(self)@, src@),
            match spec_enumerate_outcome(old(self)@, src@, key@) {
                Ok(opts) => r matches Ok(v) && v.deep_view() == opts,
                Err(e) => r matches Err(err) && err@ == e,
            },
            // Enumeration exactness: the options yielded are exactly those
            // the built domain holds an entry for under this key, each
            // exactly once.
            r matches Ok(v) ==> final(self)@.built matches Some(es) && v.deep_view()
                == spec_options_for(es, key@) && distinct_options(v.deep_view()) && (forall|
                o: OptionsView,
            |
                #[trigger] v.deep_view().contains(o) <==> has_address(es, key@, o)),
    {
        match self.with_built(src, key) {
            Err(e) => Err(e),
            Ok(()) => match &self.built {
                Some(es) => {
                    proof {
                        lemma_enumeration_exact(self.domain, es.deep_view(), key@);
                    }
                    Ok(options_for_exec(es, key))
                },
                None => {
                    proof {
                        assert(false);
                    }
                    Err(DataError::MisconfiguredEnvironment(self.domain))
                },
            },
        }
    }
}

/// The slot state after a whole sequence of build attempts, first to last.
pub open spec fn spec_slot_after_all(
    s: SlotView,
    srcs: Seq<Option<Seq<RawEntryView>>>,
) -> SlotView
    decreases srcs.len(),
{
    if srcs.len() == 0 {
        s
    } else {
        spec_slot_after_all(spec_slot_after(s, srcs[0]), srcs.drop_first())
    }
}

/// A built slot is stable: one further call, whatever its source, leaves it
/// unchanged and serves the identical cached entries — the build is never
/// re-run.
pub proof fn lemma_built_is_stable(s: SlotView, src: Option<Seq<RawEntryView>>, k: KeyView)
    requires
        s.built is Some,
    ensures
        spec_slot_after(s, src) == s,
        spec_slot_entries(s, src, k) == Ok::<Seq<EntryView>, ErrorView>(s.built.unwrap()),
{
}

/// Failure non-caching: a failed build leaves the slot empty, and a later
/// call whose build succeeds transitions it to built.
pub proof fn lemma_failure_not_cached(
    s: SlotView,
    src_bad: Option<Seq<RawEntryView>>,
    src_good: Option<Seq<RawEntryView>>,
    es: Seq<EntryView>,
)
    requires
        s.built is None,
        !(spec_build_outcome(s.domain, src_bad) matches BuildOutcome::Built(_)),
        spec_build_outcome(s.domain, src_good) == BuildOutcome::Built(es),
    ensures
        spec_slot_after(s, src_bad) == s,
        spec_slot_after(spec_slot_after(s, src_bad), src_good) == (SlotView {
            domain: s.domain,
            built: Some(es),
        }),
{
}

/// Splitting a call sequence splits the state transition.
pub proof fn lemma_slot_after_all_concat(
    s: SlotView,
    a: Seq<Option<Seq<RawEntryView>>>,
    b: Seq<Option<Seq<RawEntryView>>>,
)
    ensures
        spec_slot_after_all(s, a + b) == spec_slot_after_all(spec_slot_after_all(s, a), b),
    decreases a.len(),
{
    if a.len() == 0 {
        assert(a + b =~= b);
    } else {
        assert((a + b)[0] == a[0]);
        assert((a + b).drop_first() =~= a.drop_first() + b);
        lemma_slot_after_all_concat(spec_slot_after(s, a[0]), a.drop_first(), b);
    }
}

/// A built slot stays as it is over any sequence of calls.
pub proof fn lemma_built_stable_all(s: SlotView, srcs: Seq<Option<Seq<RawEntryView>>>)
    requires
        s.built is Some,
    ensures
        spec_slot_after_all(s, srcs) == s,
    decreases srcs.len(),
{
    if srcs.len() > 0 {
        lemma_built_stable_all(s, srcs.drop_first());
    }
}

/// An empty slot stays empty over calls whose builds all fail.
pub proof fn lemma_empty_under_failures(s: SlotView, srcs: Seq<Option<Seq<RawEntryView>>>)
    requires
        s.built is None,
        forall|i: int|
            0 <= i < srcs.len() ==> !(spec_build_outcome(s.domain, #[trigger] srcs[i])
                matches BuildOutcome::Built(_)),
    ensures
        spec_slot_after_all(s, srcs) == s,
    decreases srcs.len(),
{
    if srcs.len() > 0 {
        assert(spec_slot_after(s, srcs[0]) == s);
        assert forall|i: int| 0 <= i < srcs.drop_first().len() implies !(spec_build_outcome(
            s.domain,
            #[trigger] srcs.drop_first()[i],
        ) matches BuildOutcome::Built(_)) by {
            assert(srcs.drop_first()[i] == srcs[i + 1]);
        }
        lemma_empty_under_failures(s, srcs.drop_first());
    }
}

/// Build idempotence across any number of calls: when every build before
/// the k-th fails and the k-th succeeds with entries `es`, exactly one
/// build ever succeeds — the slot is empty before the k-th call and holds
/// the identical value `es` from then on, whatever the later sources are.
pub proof fn lemma_exactly_one_build(
    s: SlotView,
    srcs: Seq<Option<Seq<RawEntryView>>>,
    k: int,
    es: Seq<EntryView>,
)
    requires
        s.built is None,
        0 <= k < srcs.len(),
        forall|i: int|
            0 <= i < k ==> !(spec_build_outcome(s.domain, #[trigger] srcs[i])
                matches BuildOutcome::Built(_)),
        spec_build_outcome(s.domain, srcs[k]) == BuildOutcome::Built(es),
    ensures
        forall|j: int|
            0 <= j <= k ==> (#[trigger] spec_slot_after_all(s, srcs.take(j))).built is None,
        forall|j: int|
            k < j <= srcs.len() ==> #[trigger] spec_slot_after_all(s, srcs.take(j)) == (SlotView {
                domain: s.domain,
                built: Some(es),
            }),
{
    assert forall|j: int| 0 <= j <= k implies (#[trigger] spec_slot_after_all(
        s,
        srcs.take(j),
    )).built is None by {
        assert forall|i: int| 0 <= i < srcs.take(j).len() implies !(spec_build_outcome(
            s.domain,
            #[trigger] srcs.take(j)[i],
        ) matches BuildOutcome::Built(_)) by {
            assert(srcs.take(j)[i] == srcs[i]);
        }
        lemma_empty_under_failures(s, srcs.take(j));
    }
    let built = SlotView { domain: s.domain, built: Some(es) };
    assert forall|j: int| k < j <= srcs.len() implies #[trigger] spec_slot_after_all(
        s,
        srcs.take(j),
    ) == built by {
        let head = srcs.take(k) + seq![srcs[k]];
        let tail = srcs.subrange(k + 1, j);
        assert(srcs.take(j) =~= head + tail);
        lemma_slot_after_all_concat(s, head, tail);
        lemma_slot_after_all_concat(s, srcs.take(k), seq![srcs[k]]);
        assert forall|i: int| 0 <= i < srcs.take(k).len() implies !(spec_build_outcome(
            s.domain,
            #[trigger] srcs.take(k)[i],
        ) matches BuildOutcome::Built(_)) by {
            assert(srcs.take(k)[i] == srcs[i]);
        }
        lemma_empty_under_failures(s, srcs.take(k));
        assert(seq![srcs[k]].drop_first() =~= Seq::<Option<Seq<RawEntryView>>>::empty());
        assert(seq![srcs[k]][0] == srcs[k]);
        assert(spec_slot_after(s, srcs[k]) == built);
        assert(spec_slot_after_all(built, Seq::<Option<Seq<RawEntryView>>>::empty()) == built);
        assert(spec_slot_after_all(s, seq![srcs[k]]) == built);
        lemma_built_stable_all(built, tail);
    }
}

} // verus!
