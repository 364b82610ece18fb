//! The compact binary wire form: the same record, length-prefixed and
//! tagged by position, keyed by the same field names; no self-describing
//! syntax, only little-endian lengths and values.

use vstd::prelude::*;
use crate::record::{WireValue, WireV, RecordV, rv, wv};
use crate::text::push_bytes;

verus! {

/// Little-endian bytes of a 64-bit value.
pub open spec fn le64(n: u64) -> Seq<u8> {
    seq![
        (n & 0xff) as u8,
        ((n >> 8) & 0xff) as u8,
        ((n >> 16) & 0xff) as u8,
        ((n >> 24) & 0xff) as u8,
        ((n >> 32) & 0xff) as u8,
        ((n >> 40) & 0xff) as u8,
        ((n >> 48) & 0xff) as u8,
        ((n >> 56) & 0xff) as u8,
    ]
}

/// One tagged value: text, unsigned integer, boolean or null.
pub open spec fn bin_of_value(v: WireV) -> Seq<u8> {
    match v {
        WireV::Str(s) => seq![1u8] + le64(s.len() as u64) + s,
        WireV::UInt(n) => seq![2u8] + le64(n),
        WireV::Bool(b) => seq![3u8, if b { 1u8 } else { 0u8 }],
        WireV::Null => seq![4u8],
    }
}

/// The entries from `i` on: length-prefixed key, then the tagged value.
pub open spec fn bin_of_entries(rec: RecordV, i: int) -> Seq<u8>
    decreases rec.len() - i,
{
    if i < 0 || i >= rec.len() {
        Seq::empty()
    } else {
        le64(rec[i].0.len() as u64) + rec[i].0 + bin_of_value(rec[i].1) + bin_of_entries(rec,
            i + 1)
    }
}

/// The whole record: entry count, then the entries.
pub open spec fn bin_of_record(rec: RecordV) -> Seq<u8> {
    le64(rec.len() as u64) + bin_of_entries(rec, 0)
}

/// Every entry contributes at least one byte, so a record's entry count is
/// bounded by the length of its rendering.
proof fn lemma_bin_entries_min_len(rec: RecordV, i: int)
    requires
        0 <= i <= rec.len(),
    ensures
        bin_of_entries(rec, i).len() >= rec.len() - i,
    decreases rec.len() - i,
{
    if i < rec.len() {
        lemma_bin_entries_min_len(rec, i + 1);
    }
}

fn push_le64(out: &mut Vec<u8>, n: u64)
    ensures
        final(out)@ == old(out)@ + le64(n),
{
    proof {
        assert(n & 0xff < 256) by (bit_vector);
        assert((n >> 8) & 0xff < 256) by (bit_vector);
        assert((n >> 16) & 0xff < 256) by (bit_vector);
        assert((n >> 24) & 0xff < 256) by (bit_vector);
        assert((n >> 32) & 0xff < 256) by (bit_vector);
        assert((n >> 40) & 0xff < 256) by (bit_vector);
        assert((n >> 48) & 0xff < 256) by (bit_vector);
        assert((n >> 56) & 0xff < 256) by (bit_vector);
    }
    out.push((n & 0xff) as u8);
    out.push(((n >> 8) & 0xff) as u8);
    out.push(((n >> 16) & 0xff) as u8);
    out.push(((n >> 24) & 0xff) as u8);
    out.push(((n >> 32) & 0xff) as u8);
    out.push(((n >> 40) & 0xff) as u8);
    out.push(((n >> 48) & 0xff) as u8);
    out.push(((n >> 56) & 0xff) as u8);
    proof {
        assert(out@ =~= old(out)@ + le64(n));
    }
}

fn push_bin_value(out: &mut Vec<u8>, v: &WireValue)
    ensures
        final(out)@ == old(out)@ + bin_of_value(crate::record::wv(*v)),
{
    match v {
        WireValue::Str(s) => {
            out.push(1);
            push_le64(out, s.len() as u64);
            push_bytes(out, s);
            proof {
                assert(out@ =~= old(out)@ + bin_of_value(crate::record::wv(*v)));
            }
        },
        WireValue::UInt(n) => {
            out.push(2);
            push_le64(out, *n);
            proof {
                assert(out@ =~= old(out)@ + bin_of_value(crate::record::wv(*v)));
            }
        },
        WireValue::Bool(b) => {
            out.push(3);
            out.push(if *b { 1 } else { 0 });
            proof {
                assert(out@ =~= old(out)@ + bin_of_value(crate::record::wv(*v)));
            }
        },
        WireValue::Null => {
            out.push(4);
            proof {
                assert(out@ =~= old(out)@ + bin_of_value(crate::record::wv(*v)));
            }
        },
    }
}

fn write_bin_entries(out: &mut Vec<u8>, rec: &Vec<(Vec<u8>, WireValue)>, i: usize)
    requires
        i <= rec@.len(),
    ensures
        final(out)@ == old(out)@ + bin_of_entries(rv(rec@), i as int),
    decreases rec@.len() - i,
{
    if i < rec.len() {
        push_le64(out, rec[i].0.len() as u64);
        push_bytes(out, &rec[i].0);
        push_bin_value(out, &rec[i].1);
        write_bin_entries(out, rec, i + 1);
        proof {
            assert(out@ =~= old(out)@ + bin_of_entries(rv(rec@), i as int));
        }
    }
}

/// Renders a record in the compact binary form; total for every record.
pub fn record_to_bin(rec: &Vec<(Vec<u8>, WireValue)>) -> (r: Vec<u8>)
    ensures
        r@ == bin_of_record(rv(rec@)),
{
    let mut out: Vec<u8> = Vec::new();
    push_le64(&mut out, rec.len() as u64);
    write_bin_entries(&mut out, rec, 0);
    out
}

fn read_le64(bytes: &Vec<u8>, pos: &mut usize) -> (r: Option<u64>)
    requires
        *old(pos) <= bytes@.len(),
    ensures
        *old(pos) + 8 <= bytes@.len() ==> r is Some && *final(pos) == *old(pos) + 8,
        r is Some ==> *old(pos) < *final(pos) <= bytes@.len(),
        forall|n0: u64|
            #![all_triggers]
            *old(pos) + 8 <= bytes@.len() && bytes@.subrange(*old(pos) as int, *old(pos) as int
                + 8) == le64(n0) ==> r == Some(n0),
        *final(pos) <= bytes@.len(),
{
    if bytes.len() - *pos < 8 {
        return None;
    }
    let base: usize = *pos;
    let b0 = bytes[base];
    let b1 = bytes[base + 1];
    let b2 = bytes[base + 2];
    let b3 = bytes[base + 3];
    let b4 = bytes[base + 4];
    let b5 = bytes[base + 5];
    let b6 = bytes[base + 6];
    let b7 = bytes[base + 7];
    let n = (b0 as u64) | ((b1 as u64) << 8) | ((b2 as u64) << 16) | ((b3 as u64) << 24) | ((
    b4 as u64) << 32) | ((b5 as u64) << 40) | ((b6 as u64) << 48) | ((b7 as u64) << 56);
    *pos = base + 8;
    proof {
        assert forall|n0: u64|
            base + 8 <= bytes@.len() && bytes@.subrange(base as int, base as int + 8) == le64(
            n0) implies n == n0 by {
            let sub = bytes@.subrange(base as int, base as int + 8);
            assert(bytes@[base as int] == sub[0]);
            assert(bytes@[base as int + 1] == sub[1]);
            assert(bytes@[base as int + 2] == sub[2]);
            assert(bytes@[base as int + 3] == sub[3]);
            assert(bytes@[base as int + 4] == sub[4]);
            assert(bytes@[base as int + 5] == sub[5]);
            assert(bytes@[base as int + 6] == sub[6]);
            assert(bytes@[base as int + 7] == sub[7]);
            assert(n == n0) by (bit_vector)
                requires
                    n == (b0 as u64) | ((b1 as u64) << 8) | ((b2 as u64) << 16) | ((b3 as u64)
                        << 24) | ((b4 as u64) << 32) | ((b5 as u64) << 40) | ((b6 as u64) << 48)
                        | ((b7 as u64) << 56),
                    b0 == (n0 & 0xff) as u8,
                    b1 == ((n0 >> 8) & 0xff) as u8,
                    b2 == ((n0 >> 16) & 0xff) as u8,
                    b3 == ((n0 >> 24) & 0xff) as u8,
                    b4 == ((n0 >> 32) & 0xff) as u8,
                    b5 == ((n0 >> 40) & 0xff) as u8,
                    b6 == ((n0 >> 48) & 0xff) as u8,
                    b7 == ((n0 >> 56) & 0xff) as u8,
            ;
        }
    }
    Some(n)
}

fn read_bytes(bytes: &Vec<u8>, pos: &mut usize, len: usize) -> (r: Option<Vec<u8>>)
    requires
        *old(pos) <= bytes@.len(),
    ensures
        *old(pos) <= *final(pos) <= bytes@.len(),
        *old(pos) + len <= bytes@.len() ==> (r matches Some(v) && v@ == bytes@.subrange(*old(
            pos) as int, *old(pos) as int + len) && *final(pos) == *old(pos) + len),
        r matches Some(v) ==> *final(pos) == *old(pos) + len,
{
    if bytes.len() - *pos < len {
        return None;
    }
    let base: usize = *pos;
    let blen: usize = bytes.len();
    let mut out: Vec<u8> = Vec::new();
    let mut k: usize = 0;
    while k < len
        invariant
            0 <= k <= len,
            base + len <= blen,
            blen == bytes@.len(),
            out@ == bytes@.subrange(base as int, base as int + k),
        decreases len - k,
    {
        out.push(bytes[base + k]);
        proof {
            assert(bytes@.subrange(base as int, base as int + k + 1) =~= bytes@.subrange(
                base as int, base as int + k).push(bytes@[base as int + k]));
        }
        k += 1;
    }
    *pos = base + len;
    Some(out)
}

fn read_bin_value(bytes: &Vec<u8>, pos: &mut usize) -> (r: Option<WireValue>)
    requires
        *old(pos) <= bytes@.len(),
    ensures
        r is Some ==> *old(pos) < *final(pos) <= bytes@.len(),
        *final(pos) <= bytes@.len(),
        forall|v: WireV|
            #![all_triggers]
            *old(pos) + bin_of_value(v).len() <= bytes@.len() && bytes@.subrange(*old(
                pos) as int, *old(pos) + bin_of_value(v).len()) == bin_of_value(v) ==> (
                r matches Some(x) && wv(x) == v && *final(pos) == *old(pos) + bin_of_value(
                v).len()),
{
    proof {
        vstd::std_specs::vec::axiom_spec_len(bytes);
    }
    let ghost p0 = *pos as int;
    if *pos >= bytes.len() {
        proof {
            assert forall|v: WireV|
                p0 + bin_of_value(v).len() <= bytes@.len() && bytes@.subrange(p0, p0
                    + bin_of_value(v).len()) == bin_of_value(v) implies false by {
                assert(bin_of_value(v).len() >= 1);
            }
        }
        return None;
    }
    let tag = bytes[*pos];
    *pos += 1;
    if tag == 1 {
        let len64 = match read_le64(bytes, pos) {
            Some(n) => n,
            None => {
                proof {
                    assert forall|v: WireV|
                        p0 + bin_of_value(v).len() <= bytes@.len() && bytes@.subrange(p0, p0
                            + bin_of_value(v).len()) == bin_of_value(v) implies false by {
                        lemma_value_prefix(bytes@, p0, v);
                    }
                }
                return None;
            },
        };
        proof {
            assert forall|v: WireV|
                p0 + bin_of_value(v).len() <= bytes@.len() && bytes@.subrange(p0, p0
                    + bin_of_value(v).len()) == bin_of_value(v) implies (v is Str && len64
                == v->Str_0.len() && v->Str_0.len() <= bytes@.len()) by {
                lemma_value_prefix(bytes@, p0, v);
            }
        }
        if len64 > bytes.len() as u64 {
            return None;
        }
        match read_bytes(bytes, pos, len64 as usize) {
            Some(s) => {
                proof {
                    assert forall|v: WireV|
                        p0 + bin_of_value(v).len() <= bytes@.len() && bytes@.subrange(p0, p0
                            + bin_of_value(v).len()) == bin_of_value(v) implies wv(
                        WireValue::Str(s)) == v && *pos == p0 + bin_of_value(v).len() by {
                        lemma_value_prefix(bytes@, p0, v);
                        assert(s@ =~= v->Str_0);
                    }
                }
                Some(WireValue::Str(s))
            },
            None => {
                proof {
                    assert forall|v: WireV|
                        p0 + bin_of_value(v).len() <= bytes@.len() && bytes@.subrange(p0, p0
                            + bin_of_value(v).len()) == bin_of_value(v) implies false by {
                        lemma_value_prefix(bytes@, p0, v);
                    }
                }
                None
            },
        }
    } else if tag == 2 {
        match read_le64(bytes, pos) {
            Some(n) => {
                proof {
                    assert forall|v: WireV|
                        p0 + bin_of_value(v).len() <= bytes@.len() && bytes@.subrange(p0, p0
                            + bin_of_value(v).len()) == bin_of_value(v) implies wv(
                        WireValue::UInt(n)) == v && *pos == p0 + bin_of_value(v).len() by {
                        lemma_value_prefix(bytes@, p0, v);
                    }
                }
                Some(WireValue::UInt(n))
            },
            None => {
                proof {
                    assert forall|v: WireV|
                        p0 + bin_of_value(v).len() <= bytes@.len() && bytes@.subrange(p0, p0
                            + bin_of_value(v).len()) == bin_of_value(v) implies false by {
                        lemma_value_prefix(bytes@, p0, v);
                    }
                }
                None
            },
        }
    } else if tag == 3 {
        if *pos >= bytes.len() {
            proof {
                assert forall|v: WireV|
                    p0 + bin_of_value(v).len() <= bytes@.len() && bytes@.subrange(p0, p0
                        + bin_of_value(v).len()) == bin_of_value(v) implies false by {
                    lemma_value_prefix(bytes@, p0, v);
                }
            }
            return None;
        }
        let b = bytes[*pos];
        *pos += 1;
        proof {
            assert forall|v: WireV|
                p0 + bin_of_value(v).len() <= bytes@.len() && bytes@.subrange(p0, p0
                    + bin_of_value(v).len()) == bin_of_value(v) implies v is Bool && b == (
            if v->Bool_0 { 1u8 } else { 0u8 }) by {
                lemma_value_prefix(bytes@, p0, v);
            }
        }
        if b == 1 {
            Some(WireValue::Bool(true))
        } else if b == 0 {
            Some(WireValue::Bool(false))
        } else {
            proof {
                assert forall|v: WireV|
                    p0 + bin_of_value(v).len() <= bytes@.len() && bytes@.subrange(p0, p0
                        + bin_of_value(v).len()) == bin_of_value(v) implies false by {
                    lemma_value_prefix(bytes@, p0, v);
                }
            }
            None
        }
    } else if tag == 4 {
        proof {
            assert forall|v: WireV|
                p0 + bin_of_value(v).len() <= bytes@.len() && bytes@.subrange(p0, p0
                    + bin_of_value(v).len()) == bin_of_value(v) implies v is Null by {
                lemma_value_prefix(bytes@, p0, v);
            }
        }
        Some(WireValue::Null)
    } else {
        proof {
            assert forall|v: WireV|
                p0 + bin_of_value(v).len() <= bytes@.len() && bytes@.subrange(p0, p0
                    + bin_of_value(v).len()) == bin_of_value(v) implies false by {
                lemma_value_prefix(bytes@, p0, v);
            }
        }
        None
    }
}

/// What a value rendering pins down about the bytes it stands in: the tag
/// byte, the length bytes of a text, and each content byte.
proof fn lemma_value_prefix(b: Seq<u8>, p: int, v: WireV)
    requires
        0 <= p,
        p + bin_of_value(v).len() <= b.len(),
        b.subrange(p, p + bin_of_value(v).len()) == bin_of_value(v),
    ensures
        b[p] == (match v {
            WireV::Str(_) => 1u8,
            WireV::UInt(_) => 2u8,
            WireV::Bool(_) => 3u8,
            WireV::Null => 4u8,
        }),
        v is Str ==> b.subrange(p + 1, p + 9) == le64(v->Str_0.len() as u64) && b.subrange(p + 9,
            p + 9 + v->Str_0.len()) == v->Str_0,
        v is UInt ==> b.subrange(p + 1, p + 9) == le64(v->UInt_0),
        v is Bool ==> b[p + 1] == (if v->Bool_0 { 1u8 } else { 0u8 }),
{
    let enc = bin_of_value(v);
    let sub = b.subrange(p, p + enc.len());
    assert forall|j: int| 0 <= j < enc.len() implies b[p + j] == enc[j] by {
        assert(sub[j] == b[p + j]);
        assert(sub[j] == enc[j]);
    }
    assert(b[p] == enc[0]);
    match v {
        WireV::Str(s) => {
            let l = le64(s.len() as u64);
            assert forall|j: int| 0 <= j < 8 implies b.subrange(p + 1, p + 9)[j] == l[j] by {
                assert(enc[1 + j] == (l + s)[j]);
                assert(b[p + 1 + j] == enc[1 + j]);
            }
            assert(b.subrange(p + 1, p + 9) =~= l);
            assert forall|j: int| 0 <= j < s.len() implies b.subrange(p + 9, p + 9 + s.len())[j]
                == s[j] by {
                assert(enc[9 + j] == (l + s)[8 + j]);
                assert(b[p + 9 + j] == enc[9 + j]);
            }
            assert(b.subrange(p + 9, p + 9 + s.len()) =~= s);
        },
        WireV::UInt(n) => {
            let l = le64(n);
            assert forall|j: int| 0 <= j < 8 implies b.subrange(p + 1, p + 9)[j] == l[j] by {
                assert(b[p + 1 + j] == enc[1 + j]);
            }
            assert(b.subrange(p + 1, p + 9) =~= l);
        },
        WireV::Bool(bb) => {
            assert(b[p + 1] == enc[1]);
        },
        WireV::Null => {},
    }
}

/// What an entry rendering pins down about the suffix it opens: the key's
/// length bytes, the key, the value, and that the rest renders the later
/// entries.
proof fn lemma_entry_prefix(b: Seq<u8>, p: int, rec: RecordV, k: int)
    requires
        0 <= p <= b.len(),
        0 <= k < rec.len(),
        b.subrange(p, b.len() as int) == bin_of_entries(rec, k),
    ensures
        p + 8 + rec[k].0.len() + bin_of_value(rec[k].1).len() <= b.len(),
        b.subrange(p, p + 8) == le64(rec[k].0.len() as u64),
        b.subrange(p + 8, p + 8 + rec[k].0.len()) == rec[k].0,
        b.subrange(p + 8 + rec[k].0.len(), p + 8 + rec[k].0.len() + bin_of_value(
            rec[k].1).len()) == bin_of_value(rec[k].1),
        b.subrange(p + 8 + rec[k].0.len() + bin_of_value(rec[k].1).len(), b.len() as int)
            == bin_of_entries(rec, k + 1),
{
    let key = rec[k].0;
    let l = le64(key.len() as u64);
    let val = bin_of_value(rec[k].1);
    let rest = bin_of_entries(rec, k + 1);
    let enc = bin_of_entries(rec, k);
    assert(enc == l + key + val + rest);
    let sub = b.subrange(p, b.len() as int);
    assert forall|j: int| 0 <= j < enc.len() implies b[p + j] == enc[j] by {
        assert(sub[j] == b[p + j]);
        assert(sub[j] == enc[j]);
    }
    assert forall|j: int| 0 <= j < 8 implies b.subrange(p, p + 8)[j] == l[j] by {
        assert(b[p + j] == enc[j]);
        assert(enc[j] == l[j]);
    }
    assert(b.subrange(p, p + 8) =~= l);
    assert forall|j: int| 0 <= j < key.len() implies b.subrange(p + 8, p + 8 + key.len())[j]
        == key[j] by {
        assert(b[p + 8 + j] == enc[8 + j]);
        assert(enc[8 + j] == key[j]);
    }
    assert(b.subrange(p + 8, p + 8 + key.len()) =~= key);
    let q = p + 8 + key.len();
    assert forall|j: int| 0 <= j < val.len() implies b.subrange(q, q + val.len())[j] == val[j] by {
        assert(b[q + j] == enc[8 + key.len() + j]);
        assert(enc[8 + key.len() + j] == val[j]);
    }
    assert(b.subrange(q, q + val.len()) =~= val);
    assert forall|j: int| 0 <= j < rest.len() implies b.subrange(q + val.len(),
        b.len() as int)[j] == rest[j] by {
        assert(b[q + val.len() + j] == enc[8 + key.len() + val.len() + j]);
        assert(enc[8 + key.len() + val.len() + j] == rest[j]);
    }
    assert(b.subrange(q + val.len(), b.len() as int) =~= rest);
}

/// Parses a compact binary rendering back into a record.
///
/// On the rendering of any record this is proved to reconstruct that
/// record exactly.
#[verifier::rlimit(100)]
#[verifier::spinoff_prover]
pub fn bin_to_record(bytes: &Vec<u8>) -> (r: Option<Vec<(Vec<u8>, WireValue)>>)
    ensures
        forall|rec: RecordV|
            #![all_triggers]
            bytes@ == bin_of_record(rec) ==> (r matches Some(rc) && rv(rc@) == rec),
{
    proof {
        vstd::std_specs::vec::axiom_spec_len(bytes);
    }
    let blen: usize = bytes.len();
    let mut pos: usize = 0;
    let count = match read_le64(bytes, &mut pos) {
        Some(n) => n,
        None => {
            proof {
                assert forall|rec: RecordV| bytes@ == bin_of_record(rec) implies false by {
                    assert(bytes@.len() >= 8);
                }
            }
            return None;
        },
    };
    proof {
        assert forall|rec: RecordV| bytes@ == bin_of_record(rec) implies count as nat
            == rec.len() && bytes@.subrange(8, bytes@.len() as int) == bin_of_entries(rec, 0) by {
            lemma_bin_entries_min_len(rec, 0);
            let l = le64(rec.len() as u64);
            assert forall|j: int| 0 <= j < 8 implies bytes@.subrange(0, 8)[j] == l[j] by {
                assert(bytes@[j] == (l + bin_of_entries(rec, 0))[j]);
            }
            assert(bytes@.subrange(0, 8) =~= l);
            assert forall|j: int|
                0 <= j < bin_of_entries(rec, 0).len() implies bytes@.subrange(8,
                bytes@.len() as int)[j] == bin_of_entries(rec, 0)[j] by {
                assert(bytes@[8 + j] == (l + bin_of_entries(rec, 0))[8 + j]);
            }
            assert(bytes@.subrange(8, bytes@.len() as int) =~= bin_of_entries(rec, 0));
        }
    }
    let mut out: Vec<(Vec<u8>, WireValue)> = Vec::new();
    let mut k: u64 = 0;
    while k < count
        invariant
            blen == bytes@.len(),
            pos <= blen,
            0 <= k <= count,
            forall|rec: RecordV|
                #![all_triggers]
                bytes@ == bin_of_record(rec) ==> (count as nat == rec.len() && k as nat
                    <= rec.len() && rv(out@) == rec.subrange(0, k as int) && bytes@.subrange(
                    pos as int, blen as int) == bin_of_entries(rec, k as int)),
        decreases count - k,
    {
        let ghost p0 = pos as int;
        let ghost out0 = out@;
        let klen = match read_le64(bytes, &mut pos) {
            Some(n) => n,
            None => {
                proof {
                    assert forall|rec: RecordV| bytes@ == bin_of_record(rec) implies false by {
                        lemma_entry_prefix(bytes@, p0, rec, k as int);
                    }
                }
                return None;
            },
        };
        if klen > blen as u64 {
            proof {
                assert forall|rec: RecordV| bytes@ == bin_of_record(rec) implies false by {
                    lemma_entry_prefix(bytes@, p0, rec, k as int);
                }
            }
            return None;
        }
        let key = match read_bytes(bytes, &mut pos, klen as usize) {
            Some(s) => s,
            None => {
                proof {
                    assert forall|rec: RecordV| bytes@ == bin_of_record(rec) implies false by {
                        lemma_entry_prefix(bytes@, p0, rec, k as int);
                    }
                }
                return None;
            },
        };
        let ghost pv = pos as int;
        let val = match read_bin_value(bytes, &mut pos) {
            Some(v) => v,
            None => {
                proof {
                    assert forall|rec: RecordV| bytes@ == bin_of_record(rec) implies false by {
                        lemma_entry_prefix(bytes@, p0, rec, k as int);
                        assert(bytes@.subrange(pv, pv + bin_of_value(
                            rec[k as int].1).len()) =~= bytes@.subrange(pv,
                            bytes@.len() as int).subrange(0, bin_of_value(
                            rec[k as int].1).len() as int));
                    }
                }
                return None;
            },
        };
        out.push((key, val));
        proof {
            assert forall|rec: RecordV|
                bytes@ == bin_of_record(rec) implies (rv(out@) == rec.subrange(0, k as int + 1)
                && bytes@.subrange(pos as int, blen as int) == bin_of_entries(rec,
            k as int + 1)) by {
                lemma_entry_prefix(bytes@, p0, rec, k as int);
                assert(rv(out0) == rec.subrange(0, k as int));
                assert(rv(out@) =~= rec.subrange(0, k as int + 1));
            }
        }
        k += 1;
    }
    if pos == blen {
        proof {
            assert forall|rec: RecordV|
                bytes@ == bin_of_record(rec) implies rv(out@) == rec by {
                assert(rec.subrange(0, rec.len() as int) =~= rec);
            }
        }
        Some(out)
    } else {
        proof {
            assert forall|rec: RecordV| bytes@ == bin_of_record(rec) implies false by {
                assert(bin_of_entries(rec, rec.len() as int).len() == 0);
                assert(bytes@.subrange(pos as int, blen as int).len() == 0);
            }
        }
        None
    }
}

} // verus!
