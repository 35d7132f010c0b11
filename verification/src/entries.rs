//! Built entries, raw domain sources, and the build step that turns the
//! one into the other.
//!
//! A domain's external source is a list of raw entries — undecoded bytes at
//! a (key, options) address — or is missing altogether.  Building decodes
//! the payloads (for the plurals domain, through the record codec) and
//! checks that every entry is the domain's own and that no address repeats.

use vstd::prelude::*;
use crate::codec::{decode_plural_rules, spec_decode_record};
use crate::domain::{claims, claims_key, Domain, Payload, PayloadView};
use crate::resource::{key_eq, options_eq, KeyView, OptionsView, ResourceKey, ResourceOptions};
use vstd::slice::slice_to_vec;

verus! {

/// The mathematical value of a [`ResourceEntry`].
pub struct EntryView {
    pub key: KeyView,
    pub options: OptionsView,
    pub payload: PayloadView,
}

/// One built entry: the payload served at one (key, options) address.
#[derive(Debug)]
pub struct ResourceEntry {
    pub key: ResourceKey,
    pub options: ResourceOptions,
    pub payload: Payload,
}

impl View for ResourceEntry {
    type V = EntryView;

    open spec fn view(&self) -> EntryView {
        EntryView { key: self.key@, options: self.options@, payload: self.payload@ }
    }
}

impl DeepView for ResourceEntry {
    type V = EntryView;

    open spec fn deep_view(&self) -> EntryView {
        self.view()
    }
}

/// The mathematical value of a [`RawEntry`].
pub struct RawEntryView {
    pub key: KeyView,
    pub options: OptionsView,
    pub bytes: Seq<u8>,
}

/// One raw entry of a domain's source: undecoded bytes at an address.
#[derive(Debug)]
pub struct RawEntry {
    pub key: ResourceKey,
    pub options: ResourceOptions,
    pub bytes: Vec<u8>,
}

impl View for RawEntry {
    type V = RawEntryView;

    open spec fn view(&self) -> RawEntryView {
        RawEntryView { key: self.key@, options: self.options@, bytes: self.bytes@ }
    }
}

impl DeepView for RawEntry {
    type V = RawEntryView;

    open spec fn deep_view(&self) -> RawEntryView {
        self.view()
    }
}

/// One domain's external data source, as handed to each call.  `Missing`
/// models a data root that is absent entirely.
#[derive(Debug)]
pub enum DomainSource {
    Missing,
    Available(Vec<RawEntry>),
}

impl View for DomainSource {
    type V = Option<Seq<RawEntryView>>;

    open spec fn view(&self) -> Option<Seq<RawEntryView>> {
        match self {
            DomainSource::Missing => None,
            DomainSource::Available(raw) => Some(raw.deep_view()),
        }
    }
}

/// What one raw entry contributes to domain `d`: the plurals domain decodes
/// the bytes as a plural-rules record and rejects malformed ones; every
/// other domain carries the bytes through opaquely.  An entry whose key the
/// domain does not own is rejected.
pub open spec fn spec_build_one(d: Domain, r: RawEntryView) -> Option<EntryView> {
    if !claims(d, r.key) {
        None
    } else if d == Domain::Plurals {
        match spec_decode_record(r.bytes) {
            Some(rec) => Some(
                EntryView {
                    key: r.key,
                    options: r.options,
                    payload: PayloadView::PluralRules(rec),
                },
            ),
            None => None,
        }
    } else {
        Some(EntryView { key: r.key, options: r.options, payload: PayloadView::Opaque(r.bytes) })
    }
}

/// Does `es` already hold an entry at address (k, o)?
pub open spec fn has_address(es: Seq<EntryView>, k: KeyView, o: OptionsView) -> bool {
    exists|i: int| 0 <= i < es.len() && (#[trigger] es[i]).key == k && es[i].options == o
}

/// The entries domain `d` is built from its raw source, in source order.
/// The build fails — yields `None` — if any raw entry is rejected by
/// [`spec_build_one`] or repeats an earlier address.
pub open spec fn spec_build_entries(d: Domain, raw: Seq<RawEntryView>) -> Option<Seq<EntryView>>
    decreases raw.len(),
{
    if raw.len() == 0 {
        Some(Seq::empty())
    } else {
        match spec_build_entries(d, raw.drop_last()) {
            None => None,
            Some(es) => match spec_build_one(d, raw.last()) {
                None => None,
                Some(e) => if has_address(es, e.key, e.options) {
                    None
                } else {
                    Some(es.push(e))
                },
            },
        }
    }
}

/// Well-formedness of a built domain: every entry is the domain's own, and
/// no two entries share an address.
pub open spec fn entries_wf(d: Domain, es: Seq<EntryView>) -> bool {
    (forall|i: int| 0 <= i < es.len() ==> claims(d, (#[trigger] es[i]).key)) && (forall|
        i: int,
        j: int,
    |
        0 <= i < j < es.len() ==> !((#[trigger] es[i]).key == (#[trigger] es[j]).key
            && es[i].options == es[j].options))
}

/// A successful build is well-formed.
pub proof fn lemma_build_entries_wf(d: Domain, raw: Seq<RawEntryView>)
    ensures
        spec_build_entries(d, raw) matches Some(es) ==> entries_wf(d, es),
    decreases raw.len(),
{
    if raw.len() == 0 {
    } else {
        lemma_build_entries_wf(d, raw.drop_last());
    }
}

/// A build that fails on a prefix fails on the whole source.
pub proof fn lemma_build_entries_prefix_none(d: Domain, raw: Seq<RawEntryView>, i: int)
    requires
        0 <= i <= raw.len(),
        spec_build_entries(d, raw.take(i)) is None,
    ensures
        spec_build_entries(d, raw) is None,
    decreases raw.len() - i,
{
    if i < raw.len() {
        assert(raw.take(i + 1).drop_last() =~= raw.take(i));
        lemma_build_entries_prefix_none(d, raw, i + 1);
    } else {
        assert(raw.take(i) =~= raw);
    }
}

/// Does the built list already hold an entry at the request's address?
fn has_address_exec(es: &Vec<ResourceEntry>, key: &ResourceKey, options: &ResourceOptions) -> (r:
    bool)
    ensures
        r == has_address(es.deep_view(), key@, options@),
{
    let ghost esv = es.deep_view();
    let mut i: usize = 0;
    while i < es.len()
        invariant
            0 <= i <= es.len(),
            esv == es.deep_view(),
            esv.len() == es@.len(),
            forall|j: int|
                0 <= j < i ==> !((#[trigger] esv[j]).key == key@ && esv[j].options == options@),
        decreases es@.len() - i,
    {
        let e = &es[i];
        proof {
            assert(esv[i as int] == es@[i as int]@);
        }
        if key_eq(&e.key, key) && options_eq(&e.options, options) {
            return true;
        }
        i += 1;
    }
    false
}

/// Builds domain `d` from its raw source entries: decodes each payload,
/// checks ownership and address uniqueness, and mirrors
/// [`spec_build_entries`] exactly.
pub fn build_entries(d: Domain, raw: &Vec<RawEntry>) -> (r: Option<Vec<ResourceEntry>>)
    ensures
        match r {
            Some(es) => spec_build_entries(d, raw.deep_view()) == Some(es.deep_view()),
            None => spec_build_entries(d, raw.deep_view()) is None,
        },
{
    let ghost rawv = raw.deep_view();
    let mut es: Vec<ResourceEntry> = Vec::new();
    let mut i: usize = 0;
    proof {
        assert(rawv.take(0) =~= Seq::<RawEntryView>::empty());
        assert(es.deep_view() =~= Seq::<EntryView>::empty());
    }
    while i < raw.len()
        invariant
            0 <= i <= raw.len(),
            rawv == raw.deep_view(),
            rawv.len() == raw@.len(),
            spec_build_entries(d, rawv.take(i as int)) == Some(es.deep_view()),
        decreases raw@.len() - i,
    {
        let re = &raw[i];
        proof {
            assert(rawv[i as int] == raw@[i as int]@);
            assert(rawv.take(i as int + 1).drop_last() =~= rawv.take(i as int));
            assert(rawv.take(i as int + 1).last() == rawv[i as int]);
        }
        if !claims_key(d, &re.key) {
            proof {
                lemma_build_entries_prefix_none(d, rawv, i as int + 1);
            }
            return None;
        }
        let payload = if d == Domain::Plurals {
            match decode_plural_rules(&re.bytes) {
                Some(rec) => Payload::PluralRules(rec),
                None => {
                    proof {
                        lemma_build_entries_prefix_none(d, rawv, i as int + 1);
                    }
                    return None;
                },
            }
        } else {
            Payload::Opaque(slice_to_vec(re.bytes.as_slice()))
        };
        if has_address_exec(&es, &re.key, &re.options) {
            proof {
                lemma_build_entries_prefix_none(d, rawv, i as int + 1);
            }
            return None;
        }
        let ghost old_es = es.deep_view();
        let entry = ResourceEntry { key: re.key.clone(), options: re.options.clone(), payload };
        proof {
            assert(spec_build_one(d, rawv[i as int]) == Some(entry@));
        }
        es.push(entry);
        proof {
            assert(es.deep_view() =~= old_es.push(es@.last()@));
        }
        i += 1;
    }
    proof {
        assert(rawv.take(i as int) =~= rawv);
    }
    Some(es)
}

/// The payload at address (k, o) in `es`: the first match, which under
/// [`entries_wf`] is also the only one.
pub open spec fn spec_lookup(es: Seq<EntryView>, k: KeyView, o: OptionsView) -> Option<PayloadView>
    decreases es.len(),
{
    if es.len() == 0 {
        None
    } else if es[0].key == k && es[0].options == o {
        Some(es[0].payload)
    } else {
        spec_lookup(es.drop_first(), k, o)
    }
}

/// The options supported for key `k`, in entry order.
pub open spec fn spec_options_for(es: Seq<EntryView>, k: KeyView) -> Seq<OptionsView>
    decreases es.len(),
{
    if es.len() == 0 {
        Seq::empty()
    } else {
        spec_options_for(es.drop_last(), k) + (if es.last().key == k {
            seq![es.last().options]
        } else {
            Seq::empty()
        })
    }
}

/// No option occurs twice.
pub open spec fn distinct_options(s: Seq<OptionsView>) -> bool {
    forall|i: int, j: int| 0 <= i < j < s.len() ==> s[i] != s[j]
}

/// Enumeration exactness: in a well-formed domain the options enumerated
/// for `k` are exactly those with an entry at address (k, o), each exactly
/// once.
pub proof fn lemma_enumeration_exact(d: Domain, es: Seq<EntryView>, k: KeyView)
    requires
        entries_wf(d, es),
    ensures
        forall|o: OptionsView| #[trigger] spec_options_for(es, k).contains(o) <==> has_address(es, k, o),
        distinct_options(spec_options_for(es, k)),
    decreases es.len(),
{
    let opts = spec_options_for(es, k);
    if es.len() == 0 {
        assert forall|o: OptionsView| #[trigger] opts.contains(o) <==> has_address(es, k, o) by {
            assert(!opts.contains(o));
            assert(!has_address(es, k, o));
        }
    } else {
        let prev = es.drop_last();
        let last = es.last();
        assert(entries_wf(d, prev)) by {
            assert(forall|i: int| 0 <= i < prev.len() ==> prev[i] == es[i]);
        }
        lemma_enumeration_exact(d, prev, k);
        let popts = spec_options_for(prev, k);
        if last.key == k {
            assert(opts =~= popts.push(last.options));
            // The new option is not among the earlier ones: two entries at
            // the same (k, o) address would break well-formedness.
            assert(!popts.contains(last.options)) by {
                if popts.contains(last.options) {
                    assert(has_address(prev, k, last.options));
                    let i = choose|i: int|
                        0 <= i < prev.len() && (#[trigger] prev[i]).key == k && prev[i].options
                            == last.options;
                    assert(es[i] == prev[i]);
                    assert(es[i].key == es[es.len() - 1].key && es[i].options == es[es.len()
                        - 1].options);
                    assert(false);
                }
            }
            assert forall|o: OptionsView| #[trigger] opts.contains(o) <==> has_address(es, k, o) by {
                if opts.contains(o) {
                    let i = choose|i: int| 0 <= i < opts.len() && opts[i] == o;
                    if i < popts.len() {
                        assert(popts.contains(o));
                        let j = choose|j: int|
                            0 <= j < prev.len() && (#[trigger] prev[j]).key == k && prev[j].options
                                == o;
                        assert(es[j] == prev[j]);
                        assert(has_address(es, k, o));
                    } else {
                        assert(o == last.options);
                        assert((#[trigger] es[es.len() - 1]).key == k && es[es.len() - 1].options
                            == o);
                        assert(has_address(es, k, o));
                    }
                }
                if has_address(es, k, o) {
                    let i = choose|i: int|
                        0 <= i < es.len() && (#[trigger] es[i]).key == k && es[i].options == o;
                    if i < es.len() - 1 {
                        assert(prev[i] == es[i]);
                        assert(has_address(prev, k, o));
                        assert(popts.contains(o));
                        let j = choose|j: int| 0 <= j < popts.len() && popts[j] == o;
                        assert(opts[j] == o);
                        assert(opts.contains(o));
                    } else {
                        assert(o == last.options);
                        assert(opts[opts.len() - 1] == o);
                        assert(opts.contains(o));
                    }
                }
            }
            assert forall|i: int, j: int| 0 <= i < j < opts.len() implies opts[i] != opts[j] by {
                if j < popts.len() {
                    assert(popts[i] != popts[j]);
                } else {
                    assert(opts[j] == last.options);
                    assert(opts[i] == popts[i]);
                    assert(popts.contains(popts[i]));
                }
            }
        } else {
            assert(opts =~= popts);
            assert forall|o: OptionsView| #[trigger] opts.contains(o) <==> has_address(es, k, o) by {
                if has_address(es, k, o) {
                    let i = choose|i: int|
                        0 <= i < es.len() && (#[trigger] es[i]).key == k && es[i].options == o;
                    assert(i < es.len() - 1);
                    assert(prev[i] == es[i]);
                    assert(has_address(prev, k, o));
                }
                if opts.contains(o) {
                    assert(has_address(prev, k, o));
                    let j = choose|j: int|
                        0 <= j < prev.len() && (#[trigger] prev[j]).key == k && prev[j].options
                            == o;
                    assert(es[j] == prev[j]);
                    assert(has_address(es, k, o));
                }
            }
        }
    }
}

} // verus!
