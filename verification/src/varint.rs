//! Base-128 variable-length integers, the primitive of the wire format.
//!
//! A value is written least-significant group first, seven bits per byte,
//! with the high bit of a byte marking a continuation. Only the canonical
//! form is accepted when reading: no trailing zero groups, and the value
//! must fit in 64 bits.

use vstd::prelude::*;

use crate::errors::DecodeError;

verus! {

/// The canonical base-128 encoding of `n`.
pub open spec fn varint(n: nat) -> Seq<u8>
    decreases n,
{
    if n < 0x80 {
        seq![n as u8]
    } else {
        seq![(n % 0x80 + 0x80) as u8] + varint(n / 0x80)
    }
}

/// Reads one canonical varint from the front of `b`: the value and the
/// remainder of the input. `None` when the input is empty, ends inside the
/// varint, or carries a trailing zero group.
pub open spec fn dec_varint(b: Seq<u8>) -> Option<(nat, Seq<u8>)>
    decreases b.len(),
{
    if b.len() == 0 {
        None
    } else if b[0] < 0x80 {
        Some((b[0] as nat, b.skip(1)))
    } else {
        match dec_varint(b.skip(1)) {
            Some((v, rest)) => if v == 0 {
                None
            } else {
                Some(((b[0] - 0x80) as nat + 0x80 * v, rest))
            },
            None => None,
        }
    }
}

/// `dec_varint` restricted to values that fit in a `u64`.
pub open spec fn dec_varint_u64(b: Seq<u8>) -> Option<(u64, Seq<u8>)> {
    match dec_varint(b) {
        Some((v, rest)) => if v <= u64::MAX {
            Some((v as u64, rest))
        } else {
            None
        },
        None => None,
    }
}

/// What a successful read leaves behind is strictly shorter than its input.
pub proof fn lemma_dec_varint_rest(b: Seq<u8>)
    ensures
        dec_varint(b) matches Some(v_rest) ==> v_rest.1.len() < b.len(),
    decreases b.len(),
{
    if b.len() > 0 && b[0] >= 0x80 {
        lemma_dec_varint_rest(b.skip(1));
    }
}

/// Reading accepts only what writing produces: a successful read splits
/// its input into the canonical encoding of the value and the rest.
pub proof fn lemma_dec_varint_canonical(b: Seq<u8>)
    ensures
        dec_varint(b) matches Some(v_rest) ==> b == varint(v_rest.0) + v_rest.1,
    decreases b.len(),
{
    if b.len() == 0 {
    } else if b[0] < 0x80 {
        assert(b =~= seq![b[0]] + b.skip(1));
    } else {
        lemma_dec_varint_canonical(b.skip(1));
        match dec_varint(b.skip(1)) {
            Some((v, rest)) => {
                if v > 0 {
                    let value = (b[0] - 0x80) as nat + 0x80 * v;
                    vstd::arithmetic::div_mod::lemma_fundamental_div_mod_converse(
                        value as int,
                        0x80,
                        v as int,
                        (b[0] - 0x80) as int,
                    );
                    assert(varint(value) == seq![b[0]] + varint(v));
                    assert(b =~= seq![b[0]] + b.skip(1));
                    assert(b =~= varint(value) + rest);
                }
            },
            None => {},
        }
    }
}

/// Reading is a left inverse of writing, whatever follows the varint.
pub proof fn lemma_varint_round_trip(n: nat, rest: Seq<u8>)
    ensures
        dec_varint(varint(n) + rest) == Some((n, rest)),
    decreases n,
{
    let b = varint(n) + rest;
    if n < 0x80 {
        assert(b.skip(1) =~= rest);
    } else {
        assert(b.skip(1) =~= varint(n / 0x80) + rest);
        lemma_varint_round_trip(n / 0x80, rest);
        vstd::arithmetic::div_mod::lemma_fundamental_div_mod(n as int, 0x80);
        assert((b[0] - 0x80) as nat + 0x80 * (n / 0x80) == n);
    }
}

/// Appends the canonical encoding of `n` to `out`.
pub fn write_varint(out: &mut Vec<u8>, n: u64)
    ensures
        final(out)@ == old(out)@ + varint(n as nat),
    decreases n,
{
    if n < 0x80 {
        out.push(n as u8);
        assert(out@ =~= old(out)@ + varint(n as nat));
    } else {
        out.push((n % 0x80 + 0x80) as u8);
        let ghost mid = out@;
        write_varint(out, n / 0x80);
        assert(out@ =~= old(out)@ + varint(n as nat)) by {
            assert(mid =~= old(out)@ + seq![(n % 0x80 + 0x80) as u8]);
            assert(varint(n as nat) == seq![(n % 0x80 + 0x80) as u8] + varint((n / 0x80) as nat));
        }
    }
}

/// Reads one canonical varint starting at index `i` of `b`; on success the
/// value and the index just past it.
pub fn read_varint(b: &Vec<u8>, i: usize) -> (r: Result<(u64, usize), DecodeError>)
    requires
        i <= b@.len(),
    ensures
        match r {
            Ok(v_j) => {
                &&& i < v_j.1 <= b@.len()
                &&& dec_varint(b@.skip(i as int)) == Some((v_j.0 as nat, b@.skip(v_j.1 as int)))
            },
            Err(_) => dec_varint_u64(b@.skip(i as int)) is None,
        },
    decreases b@.len() - i,
{
    if i == b.len() {
        return Err(DecodeError);
    }
    let byte = b[i];
    assert(b@.skip(i as int)[0] == byte);
    if byte < 0x80 {
        assert(b@.skip(i as int).skip(1) =~= b@.skip(i as int + 1));
        Ok((byte as u64, i + 1))
    } else {
        assert(b@.skip(i as int).skip(1) =~= b@.skip(i as int + 1));
        match read_varint(b, i + 1) {
            Err(e) => Err(e),
            Ok((v, j)) => {
                if v == 0 {
                    return Err(DecodeError);
                }
                let group = (byte - 0x80) as u64;
                proof {
                    vstd::arithmetic::div_mod::lemma_fundamental_div_mod(
                        (u64::MAX - group) as int,
                        0x80,
                    );
                }
                if v > (u64::MAX - group) / 0x80 {
                    assert(group + 0x80 * (v as nat) > u64::MAX);
                    Err(DecodeError)
                } else {
                    assert(0x80 * (v as nat) <= u64::MAX - group);
                    Ok((group + 0x80 * v, j))
                }
            },
        }
    }
}

} // verus!
