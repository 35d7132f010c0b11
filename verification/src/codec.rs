//! A byte codec for the plural-rules record.
//!
//! A record is framed as its five fields in a fixed order.  An absent field
//! is one `0x00` byte; a present field is one `0x01` byte, an 8-byte
//! little-endian byte count, and the rule text's UTF-8 bytes.  Decoding
//! checks the framing and the UTF-8 and accepts nothing else, so a decoded
//! value is always the record its bytes were encoded from.

use vstd::prelude::*;
use vstd::bytes::{
    lemma_auto_spec_u64_to_from_le_bytes, spec_u64_from_le_bytes, spec_u64_to_le_bytes,
    u64_from_le_bytes, u64_to_le_bytes,
};
use vstd::slice::{slice_subrange, slice_to_vec};
use vstd::string::StrSliceExecFns;
use vstd::utf8::{
    decode_utf8, encode_utf8, encode_utf8_decode_utf8, encode_utf8_valid_utf8, valid_utf8,
};
use crate::plurals::{field_view, PluralRuleStringsV1, PluralRulesView};

verus! {

/// Encoding of one optional field: `0x00` when the field is absent;
/// `0x01`, an 8-byte little-endian byte count, and the UTF-8 bytes of the
/// rule text when it is present.
pub open spec fn spec_encode_field(f: Option<Seq<char>>) -> Seq<u8> {
    match f {
        None => seq![0u8],
        Some(s) => seq![1u8] + spec_u64_to_le_bytes(encode_utf8(s).len() as u64) + encode_utf8(s),
    }
}

/// Encoding of a whole record: the five fields in a fixed order.
pub open spec fn spec_encode_record(r: PluralRulesView) -> Seq<u8> {
    spec_encode_field(r.zero) + spec_encode_field(r.one) + spec_encode_field(r.two)
        + spec_encode_field(r.few) + spec_encode_field(r.many)
}

/// A field is encodable when its UTF-8 byte count fits the length prefix.
/// Every field of a record held in memory satisfies this.
pub open spec fn field_bounded(f: Option<Seq<char>>) -> bool {
    match f {
        None => true,
        Some(s) => encode_utf8(s).len() <= u64::MAX,
    }
}

/// Every field of the record is encodable.
pub open spec fn record_bounded(r: PluralRulesView) -> bool {
    field_bounded(r.zero) && field_bounded(r.one) && field_bounded(r.two)
        && field_bounded(r.few) && field_bounded(r.many)
}

/// Decodes one field from the front of `b`; on success yields the field and
/// the remaining suffix.
pub open spec fn spec_decode_field(b: Seq<u8>) -> Option<(Option<Seq<char>>, Seq<u8>)> {
    if b.len() >= 1 && b[0] == 0u8 {
        Some((None, b.skip(1)))
    } else if b.len() >= 9 && b[0] == 1u8 {
        let n = spec_u64_from_le_bytes(b.subrange(1, 9)) as int;
        if 9 + n <= b.len() {
            if valid_utf8(b.subrange(9, 9 + n)) {
                Some((Some(decode_utf8(b.subrange(9, 9 + n))), b.skip(9 + n)))
            } else {
                None
            }
        } else {
            None
        }
    } else {
        None
    }
}

/// Decodes a whole record: five fields, with no bytes left after them.
pub open spec fn spec_decode_record(b: Seq<u8>) -> Option<PluralRulesView> {
    match spec_decode_field(b) {
        None => None,
        Some((zero, b1)) => match spec_decode_field(b1) {
            None => None,
            Some((one, b2)) => match spec_decode_field(b2) {
                None => None,
                Some((two, b3)) => match spec_decode_field(b3) {
                    None => None,
                    Some((few, b4)) => match spec_decode_field(b4) {
                        None => None,
                        Some((many, b5)) => if b5.len() == 0 {
                            Some(PluralRulesView { zero, one, two, few, many })
                        } else {
                            None
                        },
                    },
                },
            },
        },
    }
}

/// Decoding one field undoes encoding it, whatever bytes follow.
pub proof fn lemma_field_round_trip(f: Option<Seq<char>>, rest: Seq<u8>)
    requires
        field_bounded(f),
    ensures
        spec_decode_field(spec_encode_field(f) + rest) == Some((f, rest)),
{
    let b = spec_encode_field(f) + rest;
    match f {
        None => {
            assert(b[0] == 0u8);
            assert(b.skip(1) =~= rest);
        },
        Some(s) => {
            let u = encode_utf8(s);
            let n = u.len() as int;
            let lenb = spec_u64_to_le_bytes(u.len() as u64);
            lemma_auto_spec_u64_to_from_le_bytes();
            assert(lenb.len() == 8);
            assert(b.len() == 9 + n + rest.len());
            assert(b[0] == 1u8);
            assert(b.subrange(1, 9) =~= lenb);
            assert(spec_u64_from_le_bytes(lenb) == u.len() as u64);
            assert(b.subrange(9, 9 + n) =~= u);
            encode_utf8_valid_utf8(s);
            encode_utf8_decode_utf8(s);
            assert(b.skip(9 + n) =~= rest);
        },
    }
}

/// Decoding a record undoes encoding it.  Together with the contracts of
/// [`encode_plural_rules`] and [`decode_plural_rules`] this says: a record
/// serialized and deserialized comes back identical.
#[verifier::rlimit(50)]
pub proof fn lemma_record_round_trip(r: PluralRulesView)
    requires
        record_bounded(r),
    ensures
        spec_decode_record(spec_encode_record(r)) == Some(r),
{
    let e0 = spec_encode_field(r.zero);
    let e1 = spec_encode_field(r.one);
    let e2 = spec_encode_field(r.two);
    let e3 = spec_encode_field(r.few);
    let e4 = spec_encode_field(r.many);
    let b = spec_encode_record(r);
    let rest0 = e1 + e2 + e3 + e4;
    let rest1 = e2 + e3 + e4;
    let rest2 = e3 + e4;
    let rest3 = e4;
    let rest4 = Seq::<u8>::empty();
    assert(b =~= e0 + rest0);
    lemma_field_round_trip(r.zero, rest0);
    assert(spec_decode_field(b) == Some((r.zero, rest0)));
    assert(rest0 =~= e1 + rest1);
    lemma_field_round_trip(r.one, rest1);
    assert(spec_decode_field(rest0) == Some((r.one, rest1)));
    assert(rest1 =~= e2 + rest2);
    lemma_field_round_trip(r.two, rest2);
    assert(spec_decode_field(rest1) == Some((r.two, rest2)));
    assert(rest2 =~= e3 + rest3);
    lemma_field_round_trip(r.few, rest3);
    assert(spec_decode_field(rest2) == Some((r.few, rest3)));
    assert(rest3 =~= e4 + rest4);
    lemma_field_round_trip(r.many, rest4);
    assert(spec_decode_field(rest3) == Some((r.many, rest4)));
    assert(rest4.len() == 0);
}

/// Relies on `String::from_utf8`: it returns the character-level decoding
/// of the bytes exactly when they are valid UTF-8, and its error exactly
/// when they are not.
#[verifier::external_body]
fn string_from_utf8_bytes(bytes: Vec<u8>) -> (r: Option<String>)
    ensures
        r matches Some(s) ==> valid_utf8(bytes@) && s@ == decode_utf8(bytes@),
        r is None ==> !valid_utf8(bytes@),
{
    String::from_utf8(bytes).ok()
}

/// Appends the encoding of one field to `out`.
fn encode_field(out: &mut Vec<u8>, f: &Option<String>)
    ensures
        final(out)@ == old(out)@ + spec_encode_field(field_view(*f)),
        field_bounded(field_view(*f)),
{
    match f {
        None => {
            out.push(0u8);
            proof {
                assert(out@ =~= old(out)@ + spec_encode_field(None));
            }
        },
        Some(s) => {
            out.push(1u8);
            let mut ubytes = s.as_str().as_bytes_vec();
            let n: u64 = ubytes.len() as u64;
            let mut lenb = u64_to_le_bytes(n);
            out.append(&mut lenb);
            out.append(&mut ubytes);
            proof {
                assert(out@ =~= old(out)@ + spec_encode_field(Some(s@)));
            }
        },
    }
}

/// Serializes a record to bytes.  The second clause is the round-trip law:
/// decoding the result yields this record's value again.
pub fn encode_plural_rules(rec: &PluralRuleStringsV1) -> (out: Vec<u8>)
    ensures
        out@ == spec_encode_record(rec@),
        spec_decode_record(out@) == Some(rec@),
{
    let mut out: Vec<u8> = Vec::new();
    encode_field(&mut out, &rec.zero);
    encode_field(&mut out, &rec.one);
    encode_field(&mut out, &rec.two);
    encode_field(&mut out, &rec.few);
    encode_field(&mut out, &rec.many);
    proof {
        assert(out@ =~= spec_encode_record(rec@));
        lemma_record_round_trip(rec@);
    }
    out
}

/// Decodes one field starting at byte `pos`; on success yields the field
/// and the position just past it.
fn decode_field(bytes: &Vec<u8>, pos: usize) -> (r: Option<(Option<String>, usize)>)
    requires
        pos <= bytes@.len(),
    ensures
        r matches Some(p) ==> pos <= p.1 <= bytes@.len() && spec_decode_field(
            bytes@.skip(pos as int),
        ) == Some((field_view(p.0), bytes@.skip(p.1 as int))),
        r is None ==> spec_decode_field(bytes@.skip(pos as int)) is None,
{
    let ghost sfx = bytes@.skip(pos as int);
    let len = bytes.len();
    if pos >= len {
        return None;
    }
    let tag = bytes[pos];
    proof {
        assert(sfx[0] == bytes@[pos as int]);
    }
    if tag == 0u8 {
        proof {
            assert(sfx.skip(1) =~= bytes@.skip(pos as int + 1));
        }
        Some((None, pos + 1))
    } else if tag == 1u8 {
        if len - pos < 9 {
            return None;
        }
        let lenslice = slice_subrange(bytes.as_slice(), pos + 1, pos + 9);
        let n: u64 = u64_from_le_bytes(lenslice);
        proof {
            assert(lenslice@ =~= sfx.subrange(1, 9));
        }
        let rem: usize = len - (pos + 9);
        if n > rem as u64 {
            return None;
        }
        let n_us: usize = n as usize;
        let content = slice_subrange(bytes.as_slice(), pos + 9, pos + 9 + n_us);
        proof {
            assert(content@ =~= sfx.subrange(9, 9 + n as int));
        }
        let cvec = slice_to_vec(content);
        match string_from_utf8_bytes(cvec) {
            Some(s) => {
                proof {
                    assert(sfx.skip(9 + n as int) =~= bytes@.skip(pos as int + 9 + n as int));
                }
                Some((Some(s), pos + 9 + n_us))
            },
            None => None,
        }
    } else {
        None
    }
}

/// Deserializes a record from bytes.  It succeeds exactly where the framing
/// is intact — five fields, valid UTF-8, nothing after them — and then
/// returns the record value that [`spec_decode_record`] assigns to the
/// bytes; in particular it undoes [`encode_plural_rules`].
pub fn decode_plural_rules(bytes: &Vec<u8>) -> (r: Option<PluralRuleStringsV1>)
    ensures
        r matches Some(rec) ==> spec_decode_record(bytes@) == Some(rec@),
        r is None ==> spec_decode_record(bytes@) is None,
{
    proof {
        assert(bytes@.skip(0) =~= bytes@);
    }
    let (zero, p1) = match decode_field(bytes, 0) {
        Some(p) => p,
        None => {
            return None;
        },
    };
    let (one, p2) = match decode_field(bytes, p1) {
        Some(p) => p,
        None => {
            return None;
        },
    };
    let (two, p3) = match decode_field(bytes, p2) {
        Some(p) => p,
        None => {
            return None;
        },
    };
    let (few, p4) = match decode_field(bytes, p3) {
        Some(p) => p,
        None => {
            return None;
        },
    };
    let (many, p5) = match decode_field(bytes, p4) {
        Some(p) => p,
        None => {
            return None;
        },
    };
    if p5 != bytes.len() {
        return None;
    }
    Some(PluralRuleStringsV1 { zero, one, two, few, many })
}

} // verus!
