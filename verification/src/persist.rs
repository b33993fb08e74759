//! Persistence codec for the application state.
//!
//! The saved blob encodes `{ save_enabled, comments }` and nothing else;
//! the plugin handle is transient and is rebuilt from scratch on load. The
//! format is one flag byte, a little-endian 64-bit comment count, then
//! each comment as a little-endian 64-bit byte length followed by its
//! UTF-8 bytes. Decoding is strict: any malformed blob decodes to `None`,
//! and the caller falls back to defaults.

use vstd::prelude::*;
use vstd::arithmetic::div_mod::{
    lemma_basic_div, lemma_div_denominator, lemma_div_pos_is_pos, lemma_fundamental_div_mod,
    lemma_mod_division_less_than_divisor,
};
use vstd::string::StrSliceExecFns;
use vstd::utf8::{decode_utf8, encode_utf8, encode_utf8_decode_utf8, encode_utf8_valid_utf8,
    valid_utf8};
use crate::comment_log::CommentLog;

verus! {

/// Little-endian image of a 64-bit length or count.
pub open spec fn u64_le(v: u64) -> Seq<u8> {
    let n = v as int;
    seq![
        (n % 256) as u8,
        ((n / 256) % 256) as u8,
        ((n / 65536) % 256) as u8,
        ((n / 16777216) % 256) as u8,
        ((n / 4294967296) % 256) as u8,
        ((n / 1099511627776) % 256) as u8,
        ((n / 281474976710656) % 256) as u8,
        ((n / 72057594037927936) % 256) as u8,
    ]
}

/// Value of eight little-endian bytes.
pub open spec fn le_u64(bs: Seq<u8>) -> int
    recommends
        bs.len() == 8,
{
    bs[0] + 256 * bs[1] + 65536 * bs[2] + 16777216 * bs[3] + 4294967296 * bs[4]
        + 1099511627776 * bs[5] + 281474976710656 * bs[6] + 72057594037927936 * bs[7]
}

/// Reading back the eight bytes of a 64-bit value yields that value.
pub proof fn lemma_le_u64_round_trip(v: u64)
    ensures
        le_u64(u64_le(v)) == v as int,
{
    let n = v as int;
    let q1 = n / 256;
    let q2 = n / 65536;
    let q3 = n / 16777216;
    let q4 = n / 4294967296;
    let q5 = n / 1099511627776;
    let q6 = n / 281474976710656;
    let q7 = n / 72057594037927936;
    lemma_div_denominator(n, 256, 256);
    lemma_div_denominator(n, 65536, 256);
    lemma_div_denominator(n, 16777216, 256);
    lemma_div_denominator(n, 4294967296, 256);
    lemma_div_denominator(n, 1099511627776, 256);
    lemma_div_denominator(n, 281474976710656, 256);
    lemma_fundamental_div_mod(n, 256);
    lemma_fundamental_div_mod(q1, 256);
    lemma_fundamental_div_mod(q2, 256);
    lemma_fundamental_div_mod(q3, 256);
    lemma_fundamental_div_mod(q4, 256);
    lemma_fundamental_div_mod(q5, 256);
    lemma_fundamental_div_mod(q6, 256);
    lemma_fundamental_div_mod(q7, 256);
    lemma_mod_division_less_than_divisor(n, 256);
    lemma_mod_division_less_than_divisor(q1, 256);
    lemma_mod_division_less_than_divisor(q2, 256);
    lemma_mod_division_less_than_divisor(q3, 256);
    lemma_mod_division_less_than_divisor(q4, 256);
    lemma_mod_division_less_than_divisor(q5, 256);
    lemma_mod_division_less_than_divisor(q6, 256);
    lemma_mod_division_less_than_divisor(q7, 256);
    lemma_div_pos_is_pos(n, 256);
    lemma_div_pos_is_pos(q1, 256);
    lemma_div_pos_is_pos(q2, 256);
    lemma_div_pos_is_pos(q3, 256);
    lemma_div_pos_is_pos(q4, 256);
    lemma_div_pos_is_pos(q5, 256);
    lemma_div_pos_is_pos(q6, 256);
    assert(q7 < 256) by {
        lemma_div_denominator(n, 72057594037927936, 256);
        lemma_div_pos_is_pos(q7, 256);
        lemma_fundamental_div_mod(q7, 256);
        if q7 / 256 > 0 {
            assert(n >= 18446744073709551616) by (nonlinear_arith)
                requires
                    q7 == n / 72057594037927936,
                    q7 / 256 >= 1,
                    0 <= n,
            ;
        }
        assert(q7 / 256 == 0);
        lemma_mod_division_less_than_divisor(q7, 256);
    }
    lemma_basic_div(q7, 256);
}

/// Appends the eight little-endian bytes of `v`.
fn push_u64_le(out: &mut Vec<u8>, v: u64)
    ensures
        final(out)@ == old(out)@ + u64_le(v),
{
    out.push((v % 256) as u8);
    out.push((v / 256 % 256) as u8);
    out.push((v / 65536 % 256) as u8);
    out.push((v / 16777216 % 256) as u8);
    out.push((v / 4294967296 % 256) as u8);
    out.push((v / 1099511627776 % 256) as u8);
    out.push((v / 281474976710656 % 256) as u8);
    out.push((v / 72057594037927936 % 256) as u8);
    proof {
        assert(out@ =~= old(out)@ + u64_le(v));
    }
}

/// Reads the 64-bit value stored little-endian at `pos`.
fn read_u64_le(bytes: &Vec<u8>, pos: usize) -> (v: u64)
    requires
        pos + 8 <= bytes@.len(),
    ensures
        v as int == le_u64(bytes@.subrange(pos as int, pos as int + 8)),
{
    let total = bytes.len();
    proof {
        assert(pos + 8 <= total);
    }
    let b0 = bytes[pos] as u64;
    let b1 = bytes[pos + 1] as u64;
    let b2 = bytes[pos + 2] as u64;
    let b3 = bytes[pos + 3] as u64;
    let b4 = bytes[pos + 4] as u64;
    let b5 = bytes[pos + 5] as u64;
    let b6 = bytes[pos + 6] as u64;
    let b7 = bytes[pos + 7] as u64;
    let v: u64 = b0 + b1 * 256 + b2 * 65536 + b3 * 16777216 + b4 * 4294967296 + b5
        * 1099511627776 + b6 * 281474976710656 + b7 * 72057594037927936;
    proof {
        let sub = bytes@.subrange(pos as int, pos as int + 8);
        assert(sub[0] == bytes@[pos as int]);
        assert(sub[1] == bytes@[pos as int + 1]);
        assert(sub[2] == bytes@[pos as int + 2]);
        assert(sub[3] == bytes@[pos as int + 3]);
        assert(sub[4] == bytes@[pos as int + 4]);
        assert(sub[5] == bytes@[pos as int + 5]);
        assert(sub[6] == bytes@[pos as int + 6]);
        assert(sub[7] == bytes@[pos as int + 7]);
    }
    v
}

/// The flag byte that records whether saving is enabled.
pub open spec fn enc_flag(save_enabled: bool) -> u8 {
    if save_enabled {
        1u8
    } else {
        0u8
    }
}

/// Encoding of one comment: its UTF-8 byte length, then its UTF-8 bytes.
pub open spec fn enc_entry(s: Seq<char>) -> Seq<u8> {
    u64_le(encode_utf8(s).len() as u64) + encode_utf8(s)
}

/// Encoding of the comments in order.
pub open spec fn enc_entries(entries: Seq<Seq<char>>) -> Seq<u8>
    decreases entries.len(),
{
    if entries.len() == 0 {
        Seq::empty()
    } else {
        enc_entry(entries[0]) + enc_entries(entries.drop_first())
    }
}

/// The whole saved blob: flag byte, comment count, comments.
pub open spec fn enc_state(save_enabled: bool, entries: Seq<Seq<char>>) -> Seq<u8> {
    seq![enc_flag(save_enabled)] + u64_le(entries.len() as u64) + enc_entries(entries)
}

/// Appending one entry to the sequence appends its encoding to the blob.
pub proof fn lemma_enc_entries_push(entries: Seq<Seq<char>>, entry: Seq<char>)
    ensures
        enc_entries(entries.push(entry)) == enc_entries(entries) + enc_entry(entry),
    decreases entries.len(),
{
    let p = entries.push(entry);
    if entries.len() == 0 {
        assert(p[0] == entry);
        assert(p.drop_first() =~= Seq::<Seq<char>>::empty());
        assert(enc_entries(p) == enc_entry(entry) + enc_entries(Seq::<Seq<char>>::empty()));
        Seq::<u8>::add_empty_right(enc_entry(entry), enc_entries(Seq::<Seq<char>>::empty()));
        Seq::<u8>::add_empty_left(enc_entries(entries), enc_entry(entry));
    } else {
        lemma_enc_entries_push(entries.drop_first(), entry);
        assert(p.drop_first() =~= entries.drop_first().push(entry));
        assert(p[0] == entries[0]);
        assert(enc_entries(p) == enc_entry(entries[0]) + (enc_entries(entries.drop_first())
            + enc_entry(entry)));
        vstd::seq_lib::lemma_concat_associative(
            enc_entry(entries[0]),
            enc_entries(entries.drop_first()),
            enc_entry(entry),
        );
    }
}

/// Strict decoding of `n` length-prefixed comments filling `bytes`
/// exactly; `None` on any malformed input, trailing garbage included.
pub open spec fn dec_entries(bytes: Seq<u8>, n: nat) -> Option<Seq<Seq<char>>>
    decreases n,
{
    if n == 0 {
        if bytes.len() == 0 {
            Some(Seq::empty())
        } else {
            None
        }
    } else if bytes.len() < 8 {
        None
    } else {
        let len = le_u64(bytes.subrange(0, 8));
        if bytes.len() < 8 + len {
            None
        } else if !valid_utf8(bytes.subrange(8, 8 + len)) {
            None
        } else {
            match dec_entries(bytes.skip(8 + len), (n - 1) as nat) {
                Option::None => None,
                Option::Some(rest) => Some(seq![decode_utf8(bytes.subrange(8, 8 + len))] + rest),
            }
        }
    }
}

/// Strict decoding of a whole blob.
pub open spec fn dec_state(bytes: Seq<u8>) -> Option<(bool, Seq<Seq<char>>)> {
    if bytes.len() < 9 {
        None
    } else if bytes[0] != 0 && bytes[0] != 1 {
        None
    } else {
        let n = le_u64(bytes.subrange(1, 9));
        match dec_entries(bytes.skip(9), n as nat) {
            Option::None => None,
            Option::Some(entries) => Some((bytes[0] == 1, entries)),
        }
    }
}

/// Decoding inverts encoding, entry list by entry list.
proof fn lemma_dec_enc_entries(entries: Seq<Seq<char>>)
    requires
        forall|i: int| 0 <= i < entries.len() ==> #[trigger] encode_utf8(entries[i]).len()
            <= u64::MAX,
    ensures
        dec_entries(enc_entries(entries), entries.len()) == Some(entries),
    decreases entries.len(),
{
    if entries.len() == 0 {
        assert(enc_entries(entries).len() == 0);
        assert(entries =~= Seq::<Seq<char>>::empty());
    } else {
        let head = entries[0];
        let rest = entries.drop_first();
        let hb = encode_utf8(head);
        let bytes = enc_entries(entries);
        assert(encode_utf8(entries[0]).len() <= u64::MAX);
        assert(bytes == enc_entry(head) + enc_entries(rest));
        assert(bytes.len() == 8 + hb.len() + enc_entries(rest).len());
        assert(bytes.subrange(0, 8) =~= u64_le(hb.len() as u64));
        lemma_le_u64_round_trip(hb.len() as u64);
        assert(le_u64(bytes.subrange(0, 8)) == hb.len());
        assert(bytes.subrange(8, 8 + hb.len() as int) =~= hb);
        encode_utf8_valid_utf8(head);
        encode_utf8_decode_utf8(head);
        assert(bytes.skip(8 + hb.len() as int) =~= enc_entries(rest));
        assert(forall|i: int| 0 <= i < rest.len() ==> #[trigger] encode_utf8(rest[i]).len()
            <= u64::MAX) by {
            assert(forall|i: int| 0 <= i < rest.len() ==> rest[i] == entries[i + 1]);
        }
        lemma_dec_enc_entries(rest);
        assert(dec_entries(bytes, entries.len()) == Some(seq![head] + rest));
        assert(seq![head] + rest =~= entries);
    }
}

/// Persist-then-load is the identity: a blob written for a state decodes
/// to exactly that state.
pub proof fn lemma_persist_round_trip(save_enabled: bool, entries: Seq<Seq<char>>)
    requires
        entries.len() <= u64::MAX,
        forall|i: int| 0 <= i < entries.len() ==> #[trigger] encode_utf8(entries[i]).len()
            <= u64::MAX,
    ensures
        dec_state(enc_state(save_enabled, entries)) == Some((save_enabled, entries)),
{
    let bytes = enc_state(save_enabled, entries);
    assert(bytes.len() == 9 + enc_entries(entries).len());
    assert(bytes[0] == enc_flag(save_enabled));
    assert(bytes.subrange(1, 9) =~= u64_le(entries.len() as u64));
    lemma_le_u64_round_trip(entries.len() as u64);
    assert(le_u64(bytes.subrange(1, 9)) == entries.len());
    assert(bytes.skip(9) =~= enc_entries(entries));
    lemma_dec_enc_entries(entries);
    assert((bytes[0] == 1) == save_enabled);
}

/// Relies on `String::from_utf8` (std): it returns `Ok` exactly when the
/// bytes are valid UTF-8, and then the string's characters are the
/// decoding of those bytes (the string's backing bytes are the input).
#[verifier::external_body]
fn string_from_utf8(bytes: Vec<u8>) -> (r: Option<String>)
    ensures
        r is Some <==> valid_utf8(bytes@),
        r is Some ==> r.unwrap()@ == decode_utf8(bytes@),
{
    match String::from_utf8(bytes) {
        Ok(s) => Some(s),
        Err(_) => None,
    }
}

/// What the rest of the blob still decodes to, given what has been
/// decoded so far: the final entry list is `acc` followed by the entries
/// parsed from `bytes` past `pos`.
spec fn dec_cont(bytes: Seq<u8>, pos: int, rem: nat, acc: Seq<Seq<char>>) -> Option<
    Seq<Seq<char>>,
> {
    match dec_entries(bytes.skip(pos), rem) {
        Option::None => None,
        Option::Some(rest) => Some(acc + rest),
    }
}

/// How a whole blob decodes, given its header fields.
proof fn lemma_dec_state_via_entries(bytes: Seq<u8>, count: u64)
    requires
        bytes.len() >= 9,
        bytes[0] == 0 || bytes[0] == 1,
        count as int == le_u64(bytes.subrange(1, 9)),
    ensures
        dec_state(bytes) == (match dec_entries(bytes.skip(9), count as nat) {
            Option::None => Option::<(bool, Seq<Seq<char>>)>::None,
            Option::Some(entries) => Option::Some((bytes[0] == 1, entries)),
        }),
{
}

/// Deserializes a blob; `None` on any malformed input.
pub fn decode_state(bytes: &Vec<u8>) -> (r: Option<(bool, CommentLog)>)
    ensures
        r is Some <==> dec_state(bytes@) is Some,
        r is Some ==> r.unwrap().0 == dec_state(bytes@).unwrap().0 && r.unwrap().1@ == dec_state(
            bytes@,
        ).unwrap().1,
{
    let total = bytes.len();
    if total < 9 {
        return None;
    }
    let flag = bytes[0];
    if flag > 1 {
        return None;
    }
    let count = read_u64_le(bytes, 1);
    proof {
        assert(bytes@.subrange(1int, 1int + 8) == bytes@.subrange(1, 9));
        lemma_dec_state_via_entries(bytes@, count);
    }
    let mut log = CommentLog::new();
    let mut pos: usize = 9;
    let mut remaining: u64 = count;
    proof {
        if dec_entries(bytes@.skip(9), count as nat) is Some {
            assert(log@ + dec_entries(bytes@.skip(9), count as nat).unwrap() =~= dec_entries(
                bytes@.skip(9),
                count as nat,
            ).unwrap());
        }
    }
    while remaining > 0
        invariant
            9 <= pos <= total,
            total == bytes@.len(),
            flag == bytes@[0],
            flag == 0 || flag == 1,
            count as int == le_u64(bytes@.subrange(1, 9)),
            dec_cont(bytes@, 9, count as nat, Seq::empty()) == dec_cont(
                bytes@,
                pos as int,
                remaining as nat,
                log@,
            ),
        decreases remaining,
    {
        let ghost opos = pos as int;
        let ghost orem = remaining as nat;
        let ghost olog = log@;
        let ghost tail = bytes@.skip(opos);
        if total - pos < 8 {
            proof {
                assert(tail.len() < 8);
                assert(dec_entries(tail, orem) is None);
                lemma_dec_state_via_entries(bytes@, count);
            }
            return None;
        }
        let len64 = read_u64_le(bytes, pos);
        proof {
            assert(tail.subrange(0, 8) =~= bytes@.subrange(opos, opos + 8));
            assert(le_u64(tail.subrange(0, 8)) == len64 as int);
        }
        if ((total - pos - 8) as u64) < len64 {
            proof {
                assert(tail.len() < 8 + le_u64(tail.subrange(0, 8)));
                assert(dec_entries(tail, orem) is None);
                lemma_dec_state_via_entries(bytes@, count);
            }
            return None;
        }
        proof {
            assert(len64 as int <= usize::MAX as int);
        }
        let len = len64 as usize;
        let mut payload: Vec<u8> = Vec::new();
        let mut j: usize = 0;
        while j < len
            invariant
                j <= len,
                total == bytes@.len(),
                pos + 8 + len <= total,
                payload@ == bytes@.subrange(pos as int + 8, pos as int + 8 + j as int),
            decreases len - j,
        {
            payload.push(bytes[pos + 8 + j]);
            j = j + 1;
            proof {
                assert(payload@ =~= bytes@.subrange(pos as int + 8, pos as int + 8 + j as int));
            }
        }
        let ghost payload_view = payload@;
        proof {
            assert(tail.subrange(8, 8 + len64 as int) =~= payload_view);
        }
        match string_from_utf8(payload) {
            Option::None => {
                proof {
                    assert(!valid_utf8(tail.subrange(8, 8 + le_u64(tail.subrange(0, 8)))));
                    assert(dec_entries(tail, orem) is None);
                    lemma_dec_state_via_entries(bytes@, count);
                }
                return None;
            },
            Option::Some(s) => {
                proof {
                    assert(s@ == decode_utf8(payload_view));
                }
                log.append(s);
            },
        }
        pos = pos + 8 + len;
        remaining = remaining - 1;
        proof {
            assert(tail.skip(8 + len64 as int) =~= bytes@.skip(pos as int));
            assert(dec_entries(tail, orem) == (match dec_entries(
                bytes@.skip(pos as int),
                remaining as nat,
            ) {
                Option::None => Option::<Seq<Seq<char>>>::None,
                Option::Some(rest) => Option::Some(seq![decode_utf8(payload_view)] + rest),
            }));
            if dec_entries(bytes@.skip(pos as int), remaining as nat) is Some {
                let rest = dec_entries(bytes@.skip(pos as int), remaining as nat).unwrap();
                assert(olog + (seq![decode_utf8(payload_view)] + rest) =~= log@ + rest);
            }
        }
    }
    proof {
        lemma_dec_state_via_entries(bytes@, count);
    }
    if pos < total {
        proof {
            assert(bytes@.skip(pos as int).len() > 0);
            assert(dec_entries(bytes@.skip(pos as int), 0) is None);
        }
        return None;
    }
    proof {
        assert(bytes@.skip(pos as int).len() == 0);
        assert(dec_entries(bytes@.skip(pos as int), 0) == Some(Seq::<Seq<char>>::empty()));
        assert(log@ + Seq::<Seq<char>>::empty() =~= log@);
        if dec_entries(bytes@.skip(9), count as nat) is Some {
            assert(Seq::<Seq<char>>::empty() + dec_entries(bytes@.skip(9), count as nat).unwrap()
                =~= dec_entries(bytes@.skip(9), count as nat).unwrap());
        }
    }
    Some((flag == 1, log))
}

/// Serializes the state to its blob.
pub fn encode_state(save_enabled: bool, log: &CommentLog) -> (out: Vec<u8>)
    ensures
        out@ == enc_state(save_enabled, log@),
{
    let mut out: Vec<u8> = Vec::new();
    if save_enabled {
        out.push(1u8);
    } else {
        out.push(0u8);
    }
    let n = log.len();
    push_u64_le(&mut out, n as u64);
    proof {
        assert(log@.take(0) =~= Seq::<Seq<char>>::empty());
        assert(out@ =~= seq![enc_flag(save_enabled)] + u64_le(n as u64) + enc_entries(
            log@.take(0),
        ));
    }
    let mut i: usize = 0;
    while i < n
        invariant
            i <= n,
            n == log@.len(),
            out@ == seq![enc_flag(save_enabled)] + u64_le(n as u64) + enc_entries(
                log@.take(i as int),
            ),
        decreases n - i,
    {
        let entry = log.get(i);
        let mut bytes = entry.as_str().as_bytes_vec();
        push_u64_le(&mut out, bytes.len() as u64);
        out.append(&mut bytes);
        i = i + 1;
        proof {
            let done = log@.take(i as int);
            assert(done.drop_last() =~= log@.take(i - 1));
            assert(done.last() == log@[i - 1]);
            assert(done =~= log@.take(i - 1).push(log@[i - 1]));
            lemma_enc_entries_push(log@.take(i - 1), log@[i - 1]);
            assert(out@ =~= seq![enc_flag(save_enabled)] + u64_le(n as u64) + enc_entries(done));
        }
    }
    proof {
        assert(log@.take(n as int) =~= log@);
    }
    out
}

} // verus!
