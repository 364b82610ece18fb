//! The structured-text wire form: a self-describing, field-named rendering
//! of the wire record, one object with one member per record entry, no
//! whitespace, optional fields rendered as null.

use vstd::prelude::*;
use crate::record::{WireValue, WireV, RecordV, rv, wv, wv_wf, record_wf};

verus! {

/// Decimal digits of `n`, most significant first.
pub open spec fn dec_digits(n: u64) -> Seq<u8>
    decreases n,
{
    if n < 10 {
        seq![(48 + n) as u8]
    } else {
        dec_digits((n / 10) as u64).push((48 + n % 10) as u8)
    }
}

/// The numeric value of a digit string, most significant first.
pub open spec fn digits_val(s: Seq<u8>) -> nat
    decreases s.len(),
{
    if s.len() == 0 {
        0
    } else {
        digits_val(s.drop_last()) * 10 + (s.last() - 48) as nat
    }
}

pub open spec fn is_digit(b: u8) -> bool {
    48 <= b <= 57
}

proof fn lemma_dec_digits_shape(n: u64)
    ensures
        dec_digits(n).len() >= 1,
        forall|j: int| 0 <= j < dec_digits(n).len() ==> is_digit(#[trigger] dec_digits(n)[j]),
        digits_val(dec_digits(n)) == n,
    decreases n,
{
    if n < 10 {
        assert(dec_digits(n) =~= seq![(48 + n) as u8]);
        assert(dec_digits(n).len() == 1);
        assert(dec_digits(n).drop_last() =~= Seq::<u8>::empty());
        assert(digits_val(Seq::<u8>::empty()) == 0);
        assert(dec_digits(n).last() == (48 + n) as u8);
        assert(digits_val(dec_digits(n)) == digits_val(dec_digits(n).drop_last()) * 10 + (
        dec_digits(n).last() - 48) as nat);
    } else {
        lemma_dec_digits_shape(n / 10);
        assert(dec_digits(n).drop_last() =~= dec_digits((n / 10) as u64));
        assert(dec_digits(n).last() == (48 + n % 10) as u8);
        assert(digits_val(dec_digits(n)) == digits_val(dec_digits(n).drop_last()) * 10 + (
        dec_digits(n).last() - 48) as nat);
        assert(digits_val(dec_digits(n).drop_last()) == n / 10);
        assert((dec_digits(n).last() - 48) as nat == n % 10);
        assert forall|j: int| 0 <= j < dec_digits(n).len() implies is_digit(#[trigger] dec_digits(
            n)[j]) by {
            if j < dec_digits(n).len() - 1 {
                assert(dec_digits(n)[j] == dec_digits((n / 10) as u64)[j]);
            }
        }
    }
}

/// A digit string's prefixes carry values no larger than the whole.
proof fn lemma_digits_val_prefix(s: Seq<u8>, k: int)
    requires
        0 <= k <= s.len(),
        forall|j: int| 0 <= j < s.len() ==> is_digit(#[trigger] s[j]),
    ensures
        digits_val(s.subrange(0, k)) <= digits_val(s),
    decreases s.len() - k,
{
    if k < s.len() {
        lemma_digits_val_prefix(s, k + 1);
        assert(s.subrange(0, k + 1).drop_last() =~= s.subrange(0, k));
        assert(digits_val(s.subrange(0, k + 1)) == digits_val(s.subrange(0, k)) * 10 + (
        s[k] - 48) as nat);
    } else {
        assert(s.subrange(0, k) =~= s);
    }
}

/// A quoted text value.
pub open spec fn quoted(s: Seq<u8>) -> Seq<u8> {
    seq![34u8] + s + seq![34u8]
}

/// One value in the structured-text form.
pub open spec fn text_of_value(v: WireV) -> Seq<u8> {
    match v {
        WireV::Str(s) => quoted(s),
        WireV::UInt(n) => dec_digits(n),
        WireV::Bool(b) => if b {
            seq![116u8, 114u8, 117u8, 101u8]
        } else {
            seq![102u8, 97u8, 108u8, 115u8, 101u8]
        },
        WireV::Null => seq![110u8, 117u8, 108u8, 108u8],
    }
}

/// The members from entry `i` on, comma separated.
pub open spec fn text_of_pairs(rec: RecordV, i: int) -> Seq<u8>
    decreases rec.len() - i,
{
    if i < 0 || i >= rec.len() {
        Seq::empty()
    } else {
        let pair = quoted(rec[i].0) + seq![58u8] + text_of_value(rec[i].1);
        if i + 1 < rec.len() {
            pair + seq![44u8] + text_of_pairs(rec, i + 1)
        } else {
            pair
        }
    }
}

/// The whole record in structured-text form.
pub open spec fn text_of_record(rec: RecordV) -> Seq<u8> {
    seq![123u8] + text_of_pairs(rec, 0) + seq![125u8]
}

fn push_dec(out: &mut Vec<u8>, n: u64)
    ensures
        final(out)@ == old(out)@ + dec_digits(n),
    decreases n,
{
    if n < 10 {
        out.push(48 + (n as u8));
        proof {
            assert(out@ =~= old(out)@ + dec_digits(n));
        }
    } else {
        push_dec(out, n / 10);
        out.push(48 + ((n % 10) as u8));
        proof {
            assert(out@ =~= old(out)@ + dec_digits(n));
        }
    }
}

pub(crate) fn push_bytes(out: &mut Vec<u8>, s: &Vec<u8>)
    ensures
        final(out)@ == old(out)@ + s@,
{
    let mut i: usize = 0;
    while i < s.len()
        invariant
            0 <= i <= s@.len(),
            out@ == old(out)@ + s@.subrange(0, i as int),
        decreases s@.len() - i,
    {
        out.push(s[i]);
        proof {
            assert(old(out)@ + s@.subrange(0, i as int + 1) =~= (old(out)@ + s@.subrange(0,
                i as int)).push(s@[i as int]));
        }
        i += 1;
    }
    proof {
        assert(old(out)@ + s@.subrange(0, s@.len() as int) =~= old(out)@ + s@);
    }
}

fn push_quoted(out: &mut Vec<u8>, s: &Vec<u8>)
    ensures
        final(out)@ == old(out)@ + quoted(s@),
{
    out.push(34);
    push_bytes(out, s);
    out.push(34);
    proof {
        assert(out@ =~= old(out)@ + quoted(s@));
    }
}

fn push_value(out: &mut Vec<u8>, v: &WireValue)
    ensures
        final(out)@ == old(out)@ + text_of_value(crate::record::wv(*v)),
{
    match v {
        WireValue::Str(s) => {
            push_quoted(out, s);
        },
        WireValue::UInt(n) => {
            push_dec(out, *n);
        },
        WireValue::Bool(b) => {
            if *b {
                out.push(116);
                out.push(114);
                out.push(117);
                out.push(101);
            } else {
                out.push(102);
                out.push(97);
                out.push(108);
                out.push(115);
                out.push(101);
            }
            proof {
                assert(out@ =~= old(out)@ + text_of_value(crate::record::wv(*v)));
            }
        },
        WireValue::Null => {
            out.push(110);
            out.push(117);
            out.push(108);
            out.push(108);
            proof {
                assert(out@ =~= old(out)@ + text_of_value(crate::record::wv(*v)));
            }
        },
    }
}

fn write_pairs(out: &mut Vec<u8>, rec: &Vec<(Vec<u8>, WireValue)>, i: usize)
    requires
        i <= rec@.len(),
    ensures
        final(out)@ == old(out)@ + text_of_pairs(rv(rec@), i as int),
    decreases rec@.len() - i,
{
    if i < rec.len() {
        push_quoted(out, &rec[i].0);
        out.push(58);
        push_value(out, &rec[i].1);
        if i + 1 < rec.len() {
            out.push(44);
            write_pairs(out, rec, i + 1);
        }
        proof {
            assert(out@ =~= old(out)@ + text_of_pairs(rv(rec@), i as int));
        }
    }
}

/// Renders a record in the structured-text form; total for every record.
pub fn record_to_text(rec: &Vec<(Vec<u8>, WireValue)>) -> (r: Vec<u8>)
    ensures
        r@ == text_of_record(rv(rec@)),
{
    let mut out: Vec<u8> = Vec::new();
    out.push(123);
    write_pairs(&mut out, rec, 0);
    out.push(125);
    proof {
        assert(out@ =~= text_of_record(rv(rec@)));
    }
    out
}

/// Reads one quoted text; the content must be printable ASCII free of the
/// quote and backslash characters.
fn parse_quoted(bytes: &Vec<u8>, pos: &mut usize) -> (r: Option<Vec<u8>>)
    requires
        *old(pos) <= bytes@.len(),
    ensures
        r is Some ==> *old(pos) < *final(pos) <= bytes@.len(),
        *final(pos) <= bytes@.len(),
        forall|sq: Seq<u8>|
            #![all_triggers]
            *old(pos) + quoted(sq).len() <= bytes@.len() && bytes@.subrange(*old(pos) as int,
                *old(pos) + quoted(sq).len()) == quoted(sq) && crate::types::wf_text(sq) ==> (
                r matches Some(v) && v@ == sq && *final(pos) == *old(pos) + quoted(sq).len()),
{
    proof {
        vstd::std_specs::vec::axiom_spec_len(bytes);
    }
    let ghost p0 = *pos as int;
    let blen: usize = bytes.len();
    if *pos >= bytes.len() || bytes[*pos] != 34 {
        proof {
            assert forall|sq: Seq<u8>|
                p0 + quoted(sq).len() <= bytes@.len() && bytes@.subrange(p0, p0 + quoted(
                sq).len()) == quoted(sq) && crate::types::wf_text(sq) implies false by {
                lemma_quoted_prefix(bytes@, p0, sq);
            }
        }
        return None;
    }
    *pos += 1;
    let mut content: Vec<u8> = Vec::new();
    while *pos < bytes.len() && bytes[*pos] != 34
        invariant
            p0 == *old(pos),
            0 <= p0 < *pos <= bytes@.len(),
            blen == bytes@.len(),
            content@.len() == *pos - p0 - 1,
            forall|sq: Seq<u8>|
                #![all_triggers]
                p0 + quoted(sq).len() <= bytes@.len() && bytes@.subrange(p0, p0 + quoted(
                    sq).len()) == quoted(sq) && crate::types::wf_text(sq) ==> (*pos <= p0 + 1
                    + sq.len() && content@ == sq.subrange(0, *pos - p0 - 1)),
        decreases bytes@.len() - *pos,
    {
        let b = bytes[*pos];
        if !(0x20 <= b && b < 0x7f && b != 0x5c) {
            proof {
                assert forall|sq: Seq<u8>|
                    p0 + quoted(sq).len() <= bytes@.len() && bytes@.subrange(p0, p0 + quoted(
                    sq).len()) == quoted(sq) && crate::types::wf_text(sq) implies false by {
                    lemma_quoted_prefix(bytes@, p0, sq);
                    if *pos < p0 + 1 + sq.len() {
                        let j = *pos - p0 - 1;
                        assert(bytes@[p0 + 1 + j] == sq[j]);
                        assert(0x20 <= sq[j] < 0x7f && sq[j] != 0x5c);
                    } else {
                        assert(bytes@[p0 + 1 + sq.len() as int] == 34);
                    }
                }
            }
            return None;
        }
        content.push(b);
        *pos += 1;
        proof {
            assert forall|sq: Seq<u8>|
                p0 + quoted(sq).len() <= bytes@.len() && bytes@.subrange(p0, p0 + quoted(
                    sq).len()) == quoted(sq) && crate::types::wf_text(sq) implies (*pos <= p0 + 1
                + sq.len() && content@ == sq.subrange(0, *pos - p0 - 1)) by {
                lemma_quoted_prefix(bytes@, p0, sq);
                assert(content@ =~= sq.subrange(0, *pos - p0 - 1));
            }
        }
    }
    if *pos >= bytes.len() {
        proof {
            assert forall|sq: Seq<u8>|
                p0 + quoted(sq).len() <= bytes@.len() && bytes@.subrange(p0, p0 + quoted(
                sq).len()) == quoted(sq) && crate::types::wf_text(sq) implies false by {
                lemma_quoted_prefix(bytes@, p0, sq);
            }
        }
        return None;
    }
    *pos += 1;
    proof {
        assert forall|sq: Seq<u8>|
            p0 + quoted(sq).len() <= bytes@.len() && bytes@.subrange(p0, p0 + quoted(sq).len())
                == quoted(sq) && crate::types::wf_text(sq) implies (content@ == sq && *pos == p0
            + quoted(sq).len()) by {
            lemma_quoted_prefix(bytes@, p0, sq);
            if *pos - 1 < p0 + 1 + sq.len() {
                assert(bytes@[*pos - 1] == sq[*pos - 1 - p0 - 1]);
            }
            assert(*pos - 1 == p0 + 1 + sq.len());
            assert(content@ =~= sq);
        }
    }
    Some(content)
}

/// What a quoted rendering pins down: the two quote bytes and, in between,
/// exactly the content, which is never a quote.
proof fn lemma_quoted_prefix(b: Seq<u8>, p: int, sq: Seq<u8>)
    requires
        0 <= p,
        p + quoted(sq).len() <= b.len(),
        b.subrange(p, p + quoted(sq).len()) == quoted(sq),
        crate::types::wf_text(sq),
    ensures
        b[p] == 34,
        b[p + 1 + sq.len()] == 34,
        forall|j: int|
            0 <= j < sq.len() ==> #[trigger] b[p + 1 + j] == sq[j] && 0x20 <= b[p + 1 + j]
                < 0x7f && b[p + 1 + j] != 34 && b[p + 1 + j] != 0x5c,
        b.subrange(p + 1, p + 1 + sq.len()) == sq,
{
    let enc = quoted(sq);
    let sub = b.subrange(p, p + enc.len());
    assert forall|j: int| 0 <= j < enc.len() implies b[p + j] == enc[j] by {
        assert(sub[j] == b[p + j]);
        assert(sub[j] == enc[j]);
    }
    assert(b[p] == enc[0]);
    assert(b[p + 1 + sq.len() as int] == enc[1 + sq.len() as int]);
    assert forall|j: int| 0 <= j < sq.len() implies b[p + 1 + j] == sq[j] by {
        assert(b[p + 1 + j] == enc[1 + j]);
        assert(enc[1 + j] == sq[j]);
    }
    assert(b.subrange(p + 1, p + 1 + sq.len()) =~= sq);
}

/// What a value rendering pins down about the bytes it stands in.
proof fn lemma_text_value_prefix(b: Seq<u8>, p: int, v: WireV)
    requires
        0 <= p,
        p + text_of_value(v).len() <= b.len(),
        b.subrange(p, p + text_of_value(v).len()) == text_of_value(v),
    ensures
        forall|j: int|
            0 <= j < text_of_value(v).len() ==> #[trigger] b[p + j] == text_of_value(v)[j],
        v is Str ==> b[p] == 34,
        v is UInt ==> is_digit(b[p]) && (forall|j: int|
            0 <= j < dec_digits(v->UInt_0).len() ==> #[trigger] b[p + j] == dec_digits(
                v->UInt_0)[j]),
        v is Bool ==> b[p] == (if v->Bool_0 { 116u8 } else { 102u8 }),
        v is Null ==> b[p] == 110u8,
{
    let enc = text_of_value(v);
    let sub = b.subrange(p, p + enc.len());
    assert forall|j: int| 0 <= j < enc.len() implies b[p + j] == enc[j] by {
        assert(sub[j] == b[p + j]);
        assert(sub[j] == enc[j]);
    }
    match v {
        WireV::Str(sq) => {
            assert(enc[0] == 34);
        },
        WireV::UInt(n) => {
            lemma_dec_digits_shape(n);
            assert(b[p + 0] == enc[0]);
        },
        WireV::Bool(bb) => {
            assert(b[p + 0] == enc[0]);
        },
        WireV::Null => {
            assert(b[p + 0] == enc[0]);
        },
    }
}

/// Reads one value: a quoted text, an unsigned integer, `true`, `false` or
/// `null`.  A value standing at the cursor, not followed by a digit, is
/// proved to be read back exactly.
#[verifier::rlimit(100)]
#[verifier::spinoff_prover]
fn parse_value(bytes: &Vec<u8>, pos: &mut usize) -> (r: Option<WireValue>)
    requires
        *old(pos) <= bytes@.len(),
    ensures
        r is Some ==> *old(pos) < *final(pos) <= bytes@.len(),
        *final(pos) <= bytes@.len(),
        forall|v: WireV|
            #![all_triggers]
            *old(pos) + text_of_value(v).len() <= bytes@.len() && bytes@.subrange(*old(
                pos) as int, *old(pos) + text_of_value(v).len()) == text_of_value(v) && wv_wf(v)
                && (*old(pos) + text_of_value(v).len() < bytes@.len() ==> !is_digit(bytes@[*old(
                pos) + text_of_value(v).len()])) ==> (r matches Some(x) && wv(x) == v && *final(
                pos) == *old(pos) + text_of_value(v).len()),
{
    proof {
        vstd::std_specs::vec::axiom_spec_len(bytes);
    }
    let ghost p0 = *pos as int;
    let blen: usize = bytes.len();
    if *pos >= bytes.len() {
        proof {
            assert forall|v: WireV| #![all_triggers] p0 + text_of_value(v).len() <= bytes@.len() && bytes@.subrange(p0, p0
                + text_of_value(v).len()) == text_of_value(v) && wv_wf(v) && (p0
                + text_of_value(v).len() < bytes@.len() ==> !is_digit(bytes@[p0
                + text_of_value(v).len()])) implies false by {
                lemma_text_value_prefix(bytes@, p0, v);
                assert(text_of_value(v).len() >= 1);
            }
        }
        return None;
    }
    let b = bytes[*pos];
    if b == 34 {
        let r0 = parse_quoted(bytes, pos);
        proof {
            assert forall|v: WireV| #![all_triggers] p0 + text_of_value(v).len() <= bytes@.len() && bytes@.subrange(p0, p0
                + text_of_value(v).len()) == text_of_value(v) && wv_wf(v) && (p0
                + text_of_value(v).len() < bytes@.len() ==> !is_digit(bytes@[p0
                + text_of_value(v).len()])) implies (r0 matches Some(s) && wv(WireValue::Str(s))
                == v && *pos == p0 + text_of_value(v).len()) by {
                lemma_text_value_prefix(bytes@, p0, v);
                if v is Str {
                    let sq = v->Str_0;
                    assert(text_of_value(v) == quoted(sq));
                    assert(bytes@.subrange(p0, p0 + quoted(sq).len()) == quoted(sq));
                    assert(crate::types::wf_text(sq));
                } else {
                    if v is UInt {
                        lemma_dec_digits_shape(v->UInt_0);
                    }
                }
            }
        }
        match r0 {
            Some(s) => Some(WireValue::Str(s)),
            None => None,
        }
    } else if 48 <= b && b <= 57 {
        let mut n: u64 = 0;
        let mut seen: bool = false;
        while *pos < bytes.len() && 48 <= bytes[*pos] && bytes[*pos] <= 57
            invariant
                p0 == *old(pos),
                0 <= p0 <= *pos <= bytes@.len(),
                blen == bytes@.len(),
                p0 < bytes@.len(),
                is_digit(bytes@[p0]),
                seen ==> p0 < *pos,
                !seen ==> *pos == p0,
                forall|v: WireV|
                    #![all_triggers]
                    p0 + text_of_value(v).len() <= bytes@.len() && bytes@.subrange(p0, p0
                        + text_of_value(v).len()) == text_of_value(v) && wv_wf(v) && (p0
                        + text_of_value(v).len() < bytes@.len() ==> !is_digit(bytes@[p0
                        + text_of_value(v).len()])) && v is UInt ==> (*pos <= p0 + dec_digits(v->UInt_0).len() && n
                        == digits_val(dec_digits(v->UInt_0).subrange(0, *pos - p0))),
            decreases bytes@.len() - *pos,
        {
            let d = (bytes[*pos] - 48) as u64;
            if n > (0xffff_ffff_ffff_ffffu64 - d) / 10 {
                proof {
                    assert forall|v: WireV|
                        p0 + text_of_value(v).len() <= bytes@.len() && bytes@.subrange(p0, p0
                        + text_of_value(v).len()) == text_of_value(v) && wv_wf(v) && (p0
                        + text_of_value(v).len() < bytes@.len() ==> !is_digit(bytes@[p0
                        + text_of_value(v).len()])) implies false by {
                        lemma_text_value_prefix(bytes@, p0, v);
                        assert(v is UInt);
                        let dd = dec_digits(v->UInt_0);
                        lemma_text_value_prefix(bytes@, p0, v);
                        lemma_dec_digits_shape(v->UInt_0);
                        let j = *pos - p0;
                        if j >= dd.len() {
                            assert(bytes@[p0 + dd.len() as int] == 34 || !is_digit(bytes@[p0
                                + dd.len() as int])) by {
                                assert(p0 + dd.len() < bytes@.len() ==> !is_digit(bytes@[p0
                                    + dd.len() as int]));
                            }
                        }
                        assert(j < dd.len());
                        assert(bytes@[p0 + j] == dd[j]);
                        lemma_digits_val_prefix(dd, j + 1);
                        assert(dd.subrange(0, j + 1).drop_last() =~= dd.subrange(0, j));
                        assert(digits_val(dd.subrange(0, j + 1)) == n * 10 + d);
                        assert(n * 10 + d <= v->UInt_0);
                    }
                }
                return None;
            }
            n = n * 10 + d;
            seen = true;
            *pos += 1;
            proof {
                assert forall|v: WireV|
                    p0 + text_of_value(v).len() <= bytes@.len() && bytes@.subrange(p0, p0
                        + text_of_value(v).len()) == text_of_value(v) && wv_wf(v) && (p0
                        + text_of_value(v).len() < bytes@.len() ==> !is_digit(bytes@[p0
                        + text_of_value(v).len()])) && v is UInt implies (*pos <= p0 + dec_digits(v->UInt_0).len() && n
                    == digits_val(dec_digits(v->UInt_0).subrange(0, *pos - p0))) by {
                    let dd = dec_digits(v->UInt_0);
                    lemma_text_value_prefix(bytes@, p0, v);
                    lemma_dec_digits_shape(v->UInt_0);
                    let j = *pos - p0 - 1;
                    if j >= dd.len() {
                        assert(!is_digit(bytes@[p0 + j]));
                    }
                    assert(j < dd.len());
                    assert(bytes@[p0 + j] == dd[j]);
                    assert(dd.subrange(0, j + 1).drop_last() =~= dd.subrange(0, j));
                }
            }
        }
        if seen {
            proof {
                assert forall|v: WireV| #![all_triggers] p0 + text_of_value(v).len() <= bytes@.len() && bytes@.subrange(p0, p0
                + text_of_value(v).len()) == text_of_value(v) && wv_wf(v) && (p0
                + text_of_value(v).len() < bytes@.len() ==> !is_digit(bytes@[p0
                + text_of_value(v).len()])) implies (wv(WireValue::UInt(n)) == v && *pos == p0
                    + text_of_value(v).len()) by {
                    lemma_text_value_prefix(bytes@, p0, v);
                    if v is UInt {
                        let dd = dec_digits(v->UInt_0);
                        lemma_dec_digits_shape(v->UInt_0);
                        if *pos < p0 + dd.len() {
                            assert(bytes@[p0 + (*pos - p0)] == dd[*pos - p0]);
                        }
                        assert(*pos == p0 + dd.len());
                        assert(dd.subrange(0, dd.len() as int) =~= dd);
                    }
                }
            }
            Some(WireValue::UInt(n))
        } else {
            proof {
                assert forall|v: WireV| #![all_triggers] p0 + text_of_value(v).len() <= bytes@.len() && bytes@.subrange(p0, p0
                + text_of_value(v).len()) == text_of_value(v) && wv_wf(v) && (p0
                + text_of_value(v).len() < bytes@.len() ==> !is_digit(bytes@[p0
                + text_of_value(v).len()])) implies false by {
                    lemma_text_value_prefix(bytes@, p0, v);
                    if v is UInt {
                        lemma_dec_digits_shape(v->UInt_0);
                    }
                    if v is Null {
                        assert(bytes@[p0 + 1] == text_of_value(v)[1]);
                        assert(bytes@[p0 + 2] == text_of_value(v)[2]);
                        assert(bytes@[p0 + 3] == text_of_value(v)[3]);
                    }
                    if v is Bool && v->Bool_0 {
                        assert(bytes@[p0 + 1] == text_of_value(v)[1]);
                        assert(bytes@[p0 + 2] == text_of_value(v)[2]);
                        assert(bytes@[p0 + 3] == text_of_value(v)[3]);
                    }
                    if v is Bool && !v->Bool_0 {
                        assert(bytes@[p0 + 1] == text_of_value(v)[1]);
                        assert(bytes@[p0 + 2] == text_of_value(v)[2]);
                        assert(bytes@[p0 + 3] == text_of_value(v)[3]);
                        assert(bytes@[p0 + 4] == text_of_value(v)[4]);
                    }
                }
            }
            None
        }
    } else if b == 116 {
        if bytes.len() - *pos >= 4 && bytes[*pos + 1] == 114 && bytes[*pos + 2] == 117 && bytes[
            *pos + 3] == 101 {
            *pos += 4;
            proof {
                assert forall|v: WireV| #![all_triggers] p0 + text_of_value(v).len() <= bytes@.len() && bytes@.subrange(p0, p0
                + text_of_value(v).len()) == text_of_value(v) && wv_wf(v) && (p0
                + text_of_value(v).len() < bytes@.len() ==> !is_digit(bytes@[p0
                + text_of_value(v).len()])) implies (wv(WireValue::Bool(true)) == v && *pos
                    == p0 + text_of_value(v).len()) by {
                    lemma_text_value_prefix(bytes@, p0, v);
                    if v is UInt {
                        lemma_dec_digits_shape(v->UInt_0);
                    }
                }
            }
            Some(WireValue::Bool(true))
        } else {
            proof {
                assert forall|v: WireV| #![all_triggers] p0 + text_of_value(v).len() <= bytes@.len() && bytes@.subrange(p0, p0
                + text_of_value(v).len()) == text_of_value(v) && wv_wf(v) && (p0
                + text_of_value(v).len() < bytes@.len() ==> !is_digit(bytes@[p0
                + text_of_value(v).len()])) implies false by {
                    lemma_text_value_prefix(bytes@, p0, v);
                    if v is UInt {
                        lemma_dec_digits_shape(v->UInt_0);
                    }
                    if v is Null {
                        assert(bytes@[p0 + 1] == text_of_value(v)[1]);
                        assert(bytes@[p0 + 2] == text_of_value(v)[2]);
                        assert(bytes@[p0 + 3] == text_of_value(v)[3]);
                    }
                    if v is Bool && v->Bool_0 {
                        assert(bytes@[p0 + 1] == text_of_value(v)[1]);
                        assert(bytes@[p0 + 2] == text_of_value(v)[2]);
                        assert(bytes@[p0 + 3] == text_of_value(v)[3]);
                    }
                    if v is Bool && !v->Bool_0 {
                        assert(bytes@[p0 + 1] == text_of_value(v)[1]);
                        assert(bytes@[p0 + 2] == text_of_value(v)[2]);
                        assert(bytes@[p0 + 3] == text_of_value(v)[3]);
                        assert(bytes@[p0 + 4] == text_of_value(v)[4]);
                    }
                }
            }
            None
        }
    } else if b == 102 {
        if bytes.len() - *pos >= 5 && bytes[*pos + 1] == 97 && bytes[*pos + 2] == 108 && bytes[
            *pos + 3] == 115 && bytes[*pos + 4] == 101 {
            *pos += 5;
            proof {
                assert forall|v: WireV| #![all_triggers] p0 + text_of_value(v).len() <= bytes@.len() && bytes@.subrange(p0, p0
                + text_of_value(v).len()) == text_of_value(v) && wv_wf(v) && (p0
                + text_of_value(v).len() < bytes@.len() ==> !is_digit(bytes@[p0
                + text_of_value(v).len()])) implies (wv(WireValue::Bool(false)) == v && *pos
                    == p0 + text_of_value(v).len()) by {
                    lemma_text_value_prefix(bytes@, p0, v);
                    if v is UInt {
                        lemma_dec_digits_shape(v->UInt_0);
                    }
                }
            }
            Some(WireValue::Bool(false))
        } else {
            proof {
                assert forall|v: WireV| #![all_triggers] p0 + text_of_value(v).len() <= bytes@.len() && bytes@.subrange(p0, p0
                + text_of_value(v).len()) == text_of_value(v) && wv_wf(v) && (p0
                + text_of_value(v).len() < bytes@.len() ==> !is_digit(bytes@[p0
                + text_of_value(v).len()])) implies false by {
                    lemma_text_value_prefix(bytes@, p0, v);
                    if v is UInt {
                        lemma_dec_digits_shape(v->UInt_0);
                    }
                    if v is Null {
                        assert(bytes@[p0 + 1] == text_of_value(v)[1]);
                        assert(bytes@[p0 + 2] == text_of_value(v)[2]);
                        assert(bytes@[p0 + 3] == text_of_value(v)[3]);
                    }
                    if v is Bool && v->Bool_0 {
                        assert(bytes@[p0 + 1] == text_of_value(v)[1]);
                        assert(bytes@[p0 + 2] == text_of_value(v)[2]);
                        assert(bytes@[p0 + 3] == text_of_value(v)[3]);
                    }
                    if v is Bool && !v->Bool_0 {
                        assert(bytes@[p0 + 1] == text_of_value(v)[1]);
                        assert(bytes@[p0 + 2] == text_of_value(v)[2]);
                        assert(bytes@[p0 + 3] == text_of_value(v)[3]);
                        assert(bytes@[p0 + 4] == text_of_value(v)[4]);
                    }
                }
            }
            None
        }
    } else if b == 110 {
        if bytes.len() - *pos >= 4 && bytes[*pos + 1] == 117 && bytes[*pos + 2] == 108 && bytes[
            *pos + 3] == 108 {
            *pos += 4;
            proof {
                assert forall|v: WireV| #![all_triggers] p0 + text_of_value(v).len() <= bytes@.len() && bytes@.subrange(p0, p0
                + text_of_value(v).len()) == text_of_value(v) && wv_wf(v) && (p0
                + text_of_value(v).len() < bytes@.len() ==> !is_digit(bytes@[p0
                + text_of_value(v).len()])) implies (wv(WireValue::Null) == v && *pos == p0
                    + text_of_value(v).len()) by {
                    lemma_text_value_prefix(bytes@, p0, v);
                    if v is UInt {
                        lemma_dec_digits_shape(v->UInt_0);
                    }
                }
            }
            Some(WireValue::Null)
        } else {
            proof {
                assert forall|v: WireV| #![all_triggers] p0 + text_of_value(v).len() <= bytes@.len() && bytes@.subrange(p0, p0
                + text_of_value(v).len()) == text_of_value(v) && wv_wf(v) && (p0
                + text_of_value(v).len() < bytes@.len() ==> !is_digit(bytes@[p0
                + text_of_value(v).len()])) implies false by {
                    lemma_text_value_prefix(bytes@, p0, v);
                    if v is UInt {
                        lemma_dec_digits_shape(v->UInt_0);
                    }
                    if v is Null {
                        assert(bytes@[p0 + 1] == text_of_value(v)[1]);
                        assert(bytes@[p0 + 2] == text_of_value(v)[2]);
                        assert(bytes@[p0 + 3] == text_of_value(v)[3]);
                    }
                    if v is Bool && v->Bool_0 {
                        assert(bytes@[p0 + 1] == text_of_value(v)[1]);
                        assert(bytes@[p0 + 2] == text_of_value(v)[2]);
                        assert(bytes@[p0 + 3] == text_of_value(v)[3]);
                    }
                    if v is Bool && !v->Bool_0 {
                        assert(bytes@[p0 + 1] == text_of_value(v)[1]);
                        assert(bytes@[p0 + 2] == text_of_value(v)[2]);
                        assert(bytes@[p0 + 3] == text_of_value(v)[3]);
                        assert(bytes@[p0 + 4] == text_of_value(v)[4]);
                    }
                }
            }
            None
        }
    } else {
        proof {
            assert forall|v: WireV| #![all_triggers] p0 + text_of_value(v).len() <= bytes@.len() && bytes@.subrange(p0, p0
                + text_of_value(v).len()) == text_of_value(v) && wv_wf(v) && (p0
                + text_of_value(v).len() < bytes@.len() ==> !is_digit(bytes@[p0
                + text_of_value(v).len()])) implies false by {
                lemma_text_value_prefix(bytes@, p0, v);
                if v is UInt {
                    lemma_dec_digits_shape(v->UInt_0);
                }
            }
        }
        None
    }
}

/// What the rendering of the members from entry `k` on pins down: the
/// quoted key, the colon, the value, and the comma or closing brace after
/// it.
proof fn lemma_pairs_prefix(b: Seq<u8>, p: int, rec: RecordV, k: int)
    requires
        0 <= p <= b.len(),
        0 <= k < rec.len(),
        b.subrange(p, b.len() as int) == text_of_pairs(rec, k) + seq![125u8],
    ensures
        p + quoted(rec[k].0).len() + 1 + text_of_value(rec[k].1).len() + 1 <= b.len(),
        b.subrange(p, p + quoted(rec[k].0).len()) == quoted(rec[k].0),
        b[p + quoted(rec[k].0).len()] == 58,
        b.subrange(p + quoted(rec[k].0).len() + 1, p + quoted(rec[k].0).len() + 1
            + text_of_value(rec[k].1).len()) == text_of_value(rec[k].1),
        k + 1 < rec.len() ==> b[p + quoted(rec[k].0).len() + 1 + text_of_value(rec[k].1).len()]
            == 44 && b.subrange(p + quoted(rec[k].0).len() + 1 + text_of_value(rec[k].1).len()
            + 1, b.len() as int) == text_of_pairs(rec, k + 1) + seq![125u8],
        k + 1 == rec.len() ==> b[p + quoted(rec[k].0).len() + 1 + text_of_value(rec[k].1).len()]
            == 125 && p + quoted(rec[k].0).len() + 1 + text_of_value(rec[k].1).len() + 1
            == b.len(),
{
    let kq = quoted(rec[k].0);
    let tv = text_of_value(rec[k].1);
    let pair = kq + seq![58u8] + tv;
    let enc = text_of_pairs(rec, k) + seq![125u8];
    assert(text_of_pairs(rec, k) == if k + 1 < rec.len() {
        pair + seq![44u8] + text_of_pairs(rec, k + 1)
    } else {
        pair
    });
    let sub = b.subrange(p, b.len() as int);
    assert(sub.len() == enc.len());
    assert forall|j: int| 0 <= j < enc.len() implies b[p + j] == enc[j] by {
        assert(sub[j] == b[p + j]);
        assert(sub[j] == enc[j]);
    }
    assert forall|j: int| 0 <= j < kq.len() implies b.subrange(p, p + kq.len())[j] == kq[j] by {
        assert(b[p + j] == enc[j]);
        assert(enc[j] == kq[j]);
    }
    assert(b.subrange(p, p + kq.len()) =~= kq);
    assert(b[p + kq.len() as int] == enc[kq.len() as int]);
    let vstart = p + kq.len() + 1;
    assert forall|j: int| 0 <= j < tv.len() implies b.subrange(vstart, vstart + tv.len())[j]
        == tv[j] by {
        assert(b[vstart + j] == enc[kq.len() + 1 + j]);
        assert(enc[kq.len() + 1 + j] == tv[j]);
    }
    assert(b.subrange(vstart, vstart + tv.len()) =~= tv);
    let q = vstart + tv.len();
    assert(b[q] == enc[q - p]);
    if k + 1 < rec.len() {
        let rest = text_of_pairs(rec, k + 1) + seq![125u8];
        assert forall|j: int| 0 <= j < rest.len() implies b.subrange(q + 1,
            b.len() as int)[j] == rest[j] by {
            assert(b[q + 1 + j] == enc[q + 1 - p + j]);
            assert(enc[q + 1 - p + j] == rest[j]);
        }
        assert(b.subrange(q + 1, b.len() as int) =~= rest);
    }
}

/// Parses a whole structured-text object back into a record.
///
/// On the structured-text rendering of any wire-safe record this is proved
/// to reconstruct that record exactly.
#[verifier::rlimit(100)]
#[verifier::spinoff_prover]
pub fn text_to_record(bytes: &Vec<u8>) -> (r: Option<Vec<(Vec<u8>, WireValue)>>)
    ensures
        forall|rec: RecordV|
            #![all_triggers]
            bytes@ == text_of_record(rec) && record_wf(rec) ==> (r matches Some(rc) && rv(rc@)
                == rec),
{
    proof {
        vstd::std_specs::vec::axiom_spec_len(bytes);
    }
    let blen: usize = bytes.len();
    let mut pos: usize = 0;
    if pos >= bytes.len() || bytes[pos] != 123 {
        proof {
            assert forall|rec: RecordV|
                bytes@ == text_of_record(rec) && record_wf(rec) implies false by {
                assert(bytes@[0] == 123);
            }
        }
        return None;
    }
    pos += 1;
    let mut out: Vec<(Vec<u8>, WireValue)> = Vec::new();
    if pos < bytes.len() && bytes[pos] == 125 {
        if pos + 1 == bytes.len() {
            proof {
                assert forall|rec: RecordV|
                    bytes@ == text_of_record(rec) && record_wf(rec) implies rv(out@) == rec by {
                    if rec.len() > 0 {
                        lemma_pairs_prefix(bytes@, 1, rec, 0);
                        assert(bytes@[1] == 34);
                    }
                    assert(rv(out@) =~= rec);
                }
            }
            return Some(out);
        } else {
            proof {
                assert forall|rec: RecordV|
                    bytes@ == text_of_record(rec) && record_wf(rec) implies false by {
                    if rec.len() > 0 {
                        lemma_pairs_prefix(bytes@, 1, rec, 0);
                        assert(bytes@[1] == 34);
                    } else {
                        assert(bytes@.len() == 2);
                    }
                }
            }
            return None;
        }
    }
    proof {
        assert forall|rec: RecordV|
            bytes@ == text_of_record(rec) && record_wf(rec) implies (rec.len() > 0
            && bytes@.subrange(pos as int, blen as int) == text_of_pairs(rec, 0)
            + seq![125u8]) by {
            assert(bytes@.subrange(1, blen as int) =~= text_of_pairs(rec, 0) + seq![125u8]);
            if rec.len() == 0 {
                assert(bytes@[1] == 125);
            }
        }
    }
    loop
        invariant
            blen == bytes@.len(),
            pos <= blen,
            forall|rec: RecordV|
                #![all_triggers]
                bytes@ == text_of_record(rec) && record_wf(rec) ==> (out@.len() < rec.len()
                    && rv(out@) == rec.subrange(0, out@.len() as int) && bytes@.subrange(
                    pos as int, blen as int) == text_of_pairs(rec, out@.len() as int)
                    + seq![125u8]),
        decreases bytes@.len() - pos,
    {
        let ghost p0 = pos as int;
        let ghost out0 = out@;
        let key = match parse_quoted(bytes, &mut pos) {
            Some(k) => k,
            None => {
                proof {
                    assert forall|rec: RecordV|
                        bytes@ == text_of_record(rec) && record_wf(rec) implies false by {
                        lemma_pairs_prefix(bytes@, p0, rec, out0.len() as int);
                    }
                }
                return None;
            },
        };
        if pos >= bytes.len() || bytes[pos] != 58 {
            proof {
                assert forall|rec: RecordV|
                    bytes@ == text_of_record(rec) && record_wf(rec) implies false by {
                    lemma_pairs_prefix(bytes@, p0, rec, out0.len() as int);
                }
            }
            return None;
        }
        pos += 1;
        let val = match parse_value(bytes, &mut pos) {
            Some(v) => v,
            None => {
                proof {
                    assert forall|rec: RecordV|
                        bytes@ == text_of_record(rec) && record_wf(rec) implies false by {
                        lemma_pairs_prefix(bytes@, p0, rec, out0.len() as int);
                    }
                }
                return None;
            },
        };
        out.push((key, val));
        proof {
            assert forall|rec: RecordV|
                bytes@ == text_of_record(rec) && record_wf(rec) implies (out@.len()
                <= rec.len() && rv(out@) == rec.subrange(0, out@.len() as int) && (out@.len()
            < rec.len() ==> pos < blen && bytes@[pos as int] == 44 && bytes@.subrange(
            pos as int + 1, blen as int) == text_of_pairs(rec, out@.len() as int)
                + seq![125u8]) && (out@.len() == rec.len() ==> pos < blen && bytes@[pos as int]
            == 125 && pos + 1 == blen)) by {
                lemma_pairs_prefix(bytes@, p0, rec, out0.len() as int);
                assert(rv(out@) =~= rec.subrange(0, out@.len() as int));
            }
        }
        if pos < bytes.len() && bytes[pos] == 44 {
            pos += 1;
            proof {
                assert forall|rec: RecordV|
                    bytes@ == text_of_record(rec) && record_wf(rec) implies (out@.len()
                    < rec.len() && bytes@.subrange(pos as int, blen as int) == text_of_pairs(
                    rec, out@.len() as int) + seq![125u8]) by {
                    if out@.len() == rec.len() {
                        assert(bytes@[pos as int - 1] == 125);
                    }
                }
            }
        } else if pos < bytes.len() && bytes[pos] == 125 {
            if pos + 1 == bytes.len() {
                proof {
                    assert forall|rec: RecordV|
                        bytes@ == text_of_record(rec) && record_wf(rec) implies rv(out@)
                        == rec by {
                        if out@.len() < rec.len() {
                            assert(bytes@[pos as int] == 44);
                        }
                        assert(rec.subrange(0, rec.len() as int) =~= rec);
                    }
                }
                return Some(out);
            } else {
                proof {
                    assert forall|rec: RecordV|
                        bytes@ == text_of_record(rec) && record_wf(rec) implies false by {
                        if out@.len() < rec.len() {
                            assert(bytes@[pos as int] == 44);
                        }
                    }
                }
                return None;
            }
        } else {
            proof {
                assert forall|rec: RecordV|
                    bytes@ == text_of_record(rec) && record_wf(rec) implies false by {
                    if out@.len() < rec.len() {
                        assert(bytes@[pos as int] == 44);
                    } else {
                        assert(bytes@[pos as int] == 125);
                    }
                }
            }
            return None;
        }
    }
}

} // verus!
