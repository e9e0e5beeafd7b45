//! Field codecs of the archive format.
//!
//! Every field is written in a fixed layout: an integer as eight bytes, little
//! endian; a flag as one byte; a text as its byte length followed by its UTF-8
//! bytes. An optional id uses the niche `0` for "absent", since ids are never
//! zero; an optional text carries a one-byte tag.
//!
//! Each `dec_*` spec function reads one field from the front of a byte
//! sequence and gives the value and the bytes after it; each `read_*` function
//! does so at a position of a buffer, and each `write_*` function appends a
//! field to a buffer.
use vstd::bytes::{
    lemma_auto_spec_u64_to_from_le_bytes, spec_u64_from_le_bytes, spec_u64_to_le_bytes,
    u64_from_le_bytes, u64_to_le_bytes,
};
use vstd::prelude::*;
use vstd::slice::slice_subrange;
use vstd::utf8::{decode_utf8, encode_utf8, encode_utf8_decode_utf8, encode_utf8_valid_utf8, valid_utf8};

verus! {

pub open spec fn enc_u64(x: u64) -> Seq<u8> {
    spec_u64_to_le_bytes(x)
}

pub open spec fn dec_u64(b: Seq<u8>) -> Option<(u64, Seq<u8>)> {
    if b.len() >= 8 {
        Some((spec_u64_from_le_bytes(b.subrange(0, 8)), b.subrange(8, b.len() as int)))
    } else {
        None
    }
}

pub open spec fn enc_u8(x: u8) -> Seq<u8> {
    seq![x]
}

pub open spec fn dec_u8(b: Seq<u8>) -> Option<(u8, Seq<u8>)> {
    if b.len() >= 1 {
        Some((b[0], b.subrange(1, b.len() as int)))
    } else {
        None
    }
}

pub open spec fn enc_bool(x: bool) -> Seq<u8> {
    if x {
        seq![1u8]
    } else {
        seq![0u8]
    }
}

pub open spec fn dec_bool(b: Seq<u8>) -> Option<(bool, Seq<u8>)> {
    if b.len() >= 1 && b[0] <= 1 {
        Some((b[0] == 1, b.subrange(1, b.len() as int)))
    } else {
        None
    }
}

/// An optional id, with `0` as the niche for "absent".
pub open spec fn enc_opt_id(x: Option<u64>) -> Seq<u8> {
    match x {
        Some(id) => enc_u64(id),
        None => enc_u64(0),
    }
}

pub open spec fn dec_opt_id(b: Seq<u8>) -> Option<(Option<u64>, Seq<u8>)> {
    match dec_u64(b) {
        Some((id, rest)) => Some((if id == 0 { None } else { Some(id) }, rest)),
        None => None,
    }
}

/// An optional id can be written: a present id is not the niche.
pub open spec fn opt_id_ok(x: Option<u64>) -> bool {
    match x {
        Some(id) => id != 0,
        None => true,
    }
}

pub open spec fn enc_text(s: Seq<char>) -> Seq<u8> {
    enc_u64(encode_utf8(s).len() as u64) + encode_utf8(s)
}

pub open spec fn dec_text(b: Seq<u8>) -> Option<(Seq<char>, Seq<u8>)> {
    match dec_u64(b) {
        Some((n, rest)) => if n <= rest.len() && valid_utf8(rest.subrange(0, n as int)) {
            Some((decode_utf8(rest.subrange(0, n as int)), rest.subrange(n as int, rest.len() as int)))
        } else {
            None
        },
        None => None,
    }
}

/// A text can be written: its byte length fits the length field.
pub open spec fn text_ok(s: Seq<char>) -> bool {
    encode_utf8(s).len() <= u64::MAX
}

pub open spec fn enc_opt_text(x: Option<Seq<char>>) -> Seq<u8> {
    match x {
        Some(s) => seq![1u8] + enc_text(s),
        None => seq![0u8],
    }
}

pub open spec fn dec_opt_text(b: Seq<u8>) -> Option<(Option<Seq<char>>, Seq<u8>)> {
    match dec_bool(b) {
        Some((true, rest)) => match dec_text(rest) {
            Some((s, rest2)) => Some((Some(s), rest2)),
            None => None,
        },
        Some((false, rest)) => Some((None, rest)),
        None => None,
    }
}

pub open spec fn opt_text_ok(x: Option<Seq<char>>) -> bool {
    match x {
        Some(s) => text_ok(s),
        None => true,
    }
}

pub proof fn lemma_u64_round_trip(x: u64, rest: Seq<u8>)
    ensures
        dec_u64(enc_u64(x) + rest) == Some((x, rest)),
{
    lemma_auto_spec_u64_to_from_le_bytes();
    let b = enc_u64(x) + rest;
    assert(b.subrange(0, 8) =~= enc_u64(x));
    assert(b.subrange(8, b.len() as int) =~= rest);
}

pub proof fn lemma_u8_round_trip(x: u8, rest: Seq<u8>)
    ensures
        dec_u8(enc_u8(x) + rest) == Some((x, rest)),
{
    let b = enc_u8(x) + rest;
    assert(b.subrange(1, b.len() as int) =~= rest);
}

pub proof fn lemma_bool_round_trip(x: bool, rest: Seq<u8>)
    ensures
        dec_bool(enc_bool(x) + rest) == Some((x, rest)),
{
    let b = enc_bool(x) + rest;
    assert(b.subrange(1, b.len() as int) =~= rest);
}

pub proof fn lemma_opt_id_round_trip(x: Option<u64>, rest: Seq<u8>)
    requires
        opt_id_ok(x),
    ensures
        dec_opt_id(enc_opt_id(x) + rest) == Some((x, rest)),
{
    match x {
        Some(id) => lemma_u64_round_trip(id, rest),
        None => lemma_u64_round_trip(0, rest),
    }
}

pub proof fn lemma_text_round_trip(s: Seq<char>, rest: Seq<u8>)
    requires
        text_ok(s),
    ensures
        dec_text(enc_text(s) + rest) == Some((s, rest)),
{
    let e = encode_utf8(s);
    let n = e.len() as u64;
    lemma_u64_round_trip(n, e + rest);
    assert(enc_text(s) + rest =~= enc_u64(n) + (e + rest));
    let r = e + rest;
    assert(r.subrange(0, n as int) =~= e);
    assert(r.subrange(n as int, r.len() as int) =~= rest);
    encode_utf8_valid_utf8(s);
    encode_utf8_decode_utf8(s);
}

pub proof fn lemma_opt_text_round_trip(x: Option<Seq<char>>, rest: Seq<u8>)
    requires
        opt_text_ok(x),
    ensures
        dec_opt_text(enc_opt_text(x) + rest) == Some((x, rest)),
{
    match x {
        Some(s) => {
            lemma_text_round_trip(s, rest);
            lemma_bool_round_trip(true, enc_text(s) + rest);
            assert(enc_opt_text(x) + rest =~= enc_bool(true) + (enc_text(s) + rest));
        },
        None => {
            lemma_bool_round_trip(false, rest);
        },
    }
}

/// What a reader of `dec` at `pos` in `b` owes: the field and the position
/// after it, or `None` where the field is malformed.
pub open spec fn read_result<T>(
    dec: Option<(T, Seq<u8>)>,
    b: Seq<u8>,
    r: Option<(T, usize)>,
) -> bool {
    match r {
        Some((x, p)) => p <= b.len() && dec == Some((x, b.subrange(p as int, b.len() as int))),
        None => dec is None,
    }
}

fn append_bytes(out: &mut Vec<u8>, b: &[u8])
    ensures
        final(out)@ == old(out)@ + b@,
{
    let mut i: usize = 0;
    while i < b.len()
        invariant
            i <= b@.len(),
            out@ == old(out)@ + b@.subrange(0, i as int),
        decreases b@.len() - i,
    {
        out.push(b[i]);
        i = i + 1;
        assert(b@.subrange(0, i as int) =~= b@.subrange(0, i - 1) .push(b@[i - 1]));
    }
    assert(b@.subrange(0, b@.len() as int) =~= b@);
}

pub fn write_u64(out: &mut Vec<u8>, x: u64)
    ensures
        final(out)@ == old(out)@ + enc_u64(x),
{
    let bytes = u64_to_le_bytes(x);
    append_bytes(out, bytes.as_slice());
}

pub fn write_u8(out: &mut Vec<u8>, x: u8)
    ensures
        final(out)@ == old(out)@ + enc_u8(x),
{
    out.push(x);
    assert(final(out)@ =~= old(out)@ + enc_u8(x));
}

pub fn write_bool(out: &mut Vec<u8>, x: bool)
    ensures
        final(out)@ == old(out)@ + enc_bool(x),
{
    if x {
        out.push(1u8);
    } else {
        out.push(0u8);
    }
    assert(final(out)@ =~= old(out)@ + enc_bool(x));
}

pub fn write_opt_id(out: &mut Vec<u8>, x: Option<u64>)
    ensures
        final(out)@ == old(out)@ + enc_opt_id(x),
{
    match x {
        Some(id) => write_u64(out, id),
        None => write_u64(out, 0),
    }
}

pub fn write_text(out: &mut Vec<u8>, s: &String)
    ensures
        final(out)@ == old(out)@ + enc_text(s@),
        text_ok(s@),
{
    let bytes = s.as_str().as_bytes();
    write_u64(out, bytes.len() as u64);
    append_bytes(out, bytes);
    assert(final(out)@ =~= old(out)@ + enc_text(s@));
}

pub fn write_opt_text(out: &mut Vec<u8>, x: &Option<String>)
    ensures
        final(out)@ == old(out)@ + enc_opt_text(match x {
            Some(s) => Some(s@),
            None => None,
        }),
        opt_text_ok(match x {
            Some(s) => Some(s@),
            None => None,
        }),
{
    match x {
        Some(s) => {
            out.push(1u8);
            write_text(out, s);
            assert(final(out)@ =~= old(out)@ + (seq![1u8] + enc_text(s@)));
        },
        None => {
            out.push(0u8);
            assert(final(out)@ =~= old(out)@ + seq![0u8]);
        },
    }
}

pub fn read_u64(b: &[u8], pos: usize) -> (r: Option<(u64, usize)>)
    requires
        pos <= b@.len(),
    ensures
        read_result(dec_u64(b@.subrange(pos as int, b@.len() as int)), b@, r),
{
    let ghost s = b@.subrange(pos as int, b@.len() as int);
    if b.len() - pos < 8 {
        None
    } else {
        let x = u64_from_le_bytes(slice_subrange(b, pos, pos + 8));
        assert(s.subrange(0, 8) =~= b@.subrange(pos as int, pos + 8));
        assert(s.subrange(8, s.len() as int) =~= b@.subrange(pos + 8, b@.len() as int));
        Some((x, pos + 8))
    }
}

pub fn read_u8(b: &[u8], pos: usize) -> (r: Option<(u8, usize)>)
    requires
        pos <= b@.len(),
    ensures
        read_result(dec_u8(b@.subrange(pos as int, b@.len() as int)), b@, r),
{
    let ghost s = b@.subrange(pos as int, b@.len() as int);
    if pos < b.len() {
        assert(s.subrange(1, s.len() as int) =~= b@.subrange(pos + 1, b@.len() as int));
        Some((b[pos], pos + 1))
    } else {
        None
    }
}

pub fn read_bool(b: &[u8], pos: usize) -> (r: Option<(bool, usize)>)
    requires
        pos <= b@.len(),
    ensures
        read_result(dec_bool(b@.subrange(pos as int, b@.len() as int)), b@, r),
{
    let ghost s = b@.subrange(pos as int, b@.len() as int);
    if pos < b.len() && b[pos] <= 1 {
        assert(s.subrange(1, s.len() as int) =~= b@.subrange(pos + 1, b@.len() as int));
        Some((b[pos] == 1, pos + 1))
    } else {
        None
    }
}

pub fn read_opt_id(b: &[u8], pos: usize) -> (r: Option<(Option<u64>, usize)>)
    requires
        pos <= b@.len(),
    ensures
        read_result(dec_opt_id(b@.subrange(pos as int, b@.len() as int)), b@, r),
{
    match read_u64(b, pos) {
        Some((id, p)) => if id == 0 {
            Some((None, p))
        } else {
            Some((Some(id), p))
        },
        None => None,
    }
}

/// Relies on `std::str::from_utf8`: it accepts exactly the valid UTF-8 byte
/// sequences and then yields the characters they encode.
#[verifier::external_body]
fn utf8_text(b: &[u8]) -> (r: Option<String>)
    ensures
        r is Some <==> valid_utf8(b@),
        r matches Some(s) ==> s@ == decode_utf8(b@),
{
    std::str::from_utf8(b).ok().map(|s| s.to_string())
}

pub fn read_text(b: &[u8], pos: usize) -> (r: Option<(String, usize)>)
    requires
        pos <= b@.len(),
    ensures
        read_result(
            dec_text(b@.subrange(pos as int, b@.len() as int)),
            b@,
            match r {
                Some((s, p)) => Some((s@, p)),
                None => None,
            },
        ),
{
    let ghost s = b@.subrange(pos as int, b@.len() as int);
    match read_u64(b, pos) {
        Some((n, p)) => {
            let ghost rest = b@.subrange(p as int, b@.len() as int);
            if n > (b.len() - p) as u64 {
                None
            } else {
                let end = p + n as usize;
                let chunk = slice_subrange(b, p, end);
                assert(rest.subrange(0, n as int) =~= chunk@);
                assert(rest.subrange(n as int, rest.len() as int) =~= b@.subrange(end as int, b@.len() as int));
                match utf8_text(chunk) {
                    Some(t) => Some((t, end)),
                    None => None,
                }
            }
        },
        None => None,
    }
}

pub fn read_opt_text(b: &[u8], pos: usize) -> (r: Option<(Option<String>, usize)>)
    requires
        pos <= b@.len(),
    ensures
        read_result(
            dec_opt_text(b@.subrange(pos as int, b@.len() as int)),
            b@,
            match r {
                Some((Some(s), p)) => Some((Some(s@), p)),
                Some((None, p)) => Some((None, p)),
                None => None,
            },
        ),
{
    let ghost s = b@.subrange(pos as int, b@.len() as int);
    match read_bool(b, pos) {
        Some((true, p)) => {
            assert(b@.subrange(p as int, b@.len() as int) == s.subrange(1, s.len() as int));
            match read_text(b, p) {
                Some((t, q)) => Some((Some(t), q)),
                None => None,
            }
        },
        Some((false, p)) => Some((None, p)),
        None => None,
    }
}

} // verus!
