//! Numbers as bytes: a number written in base 256, most significant byte first.
use vstd::arithmetic::div_mod::{
    lemma_fundamental_div_mod, lemma_fundamental_div_mod_converse, lemma_multiply_divide_lt,
};
use vstd::arithmetic::power2::{lemma2_to64, lemma_pow2_adds, pow2};
use vstd::prelude::*;

verus! {

/// The last `len` bytes of a number written in base 256, most significant first.
pub open spec fn big_endian(value: nat, len: nat) -> Seq<u8>
    decreases len,
{
    if len == 0 {
        Seq::empty()
    } else {
        big_endian(value / 256, (len - 1) as nat).push((value % 256) as u8)
    }
}

/// Bytes read as a number in base 256, most significant byte first.
pub open spec fn bytes_number(bytes: Seq<u8>) -> nat
    decreases bytes.len(),
{
    if bytes.len() == 0 {
        0
    } else {
        bytes_number(bytes.drop_last()) * 256 + bytes.last() as nat
    }
}

/// A number written in `len` bytes has `len` bytes.
pub proof fn lemma_big_endian_len(value: nat, len: nat)
    ensures
        big_endian(value, len).len() == len,
    decreases len,
{
    if len > 0 {
        lemma_big_endian_len(value / 256, (len - 1) as nat);
    }
}

/// Reading as a number what was written in `len` bytes gives the number back, where it fits.
pub proof fn lemma_number_of_bytes(value: nat, len: nat)
    requires
        value < pow2(len * 8),
    ensures
        bytes_number(big_endian(value, len)) == value,
    decreases len,
{
    lemma2_to64();
    if len > 0 {
        let rest = (len - 1) as nat;
        lemma_pow2_adds(8, rest * 8);
        assert(8 + rest * 8 == len * 8);
        lemma_multiply_divide_lt(value as int, 256, pow2(rest * 8) as int);
        lemma_number_of_bytes(value / 256, rest);
        lemma_fundamental_div_mod(value as int, 256);
        let bytes = big_endian(value, len);
        assert(bytes.drop_last() =~= big_endian(value / 256, rest));
        assert(bytes.last() == (value % 256) as u8);
    }
}

/// Bytes are a number below 256 to the power of their count.
pub proof fn lemma_bytes_number_bound(bytes: Seq<u8>)
    ensures
        bytes_number(bytes) < pow2(bytes.len() * 8),
    decreases bytes.len(),
{
    lemma2_to64();
    if bytes.len() > 0 {
        let front = bytes.drop_last();
        lemma_bytes_number_bound(front);
        lemma_pow2_adds(front.len() * 8, 8);
        assert(bytes_number(front) * 256 + 256 <= pow2(front.len() * 8) * 256) by (nonlinear_arith)
            requires
                bytes_number(front) < pow2(front.len() * 8),
        ;
        assert(front.len() * 8 + 8 == bytes.len() * 8);
    }
}

/// Writing the number of some bytes in base 256 gives the bytes back.
pub proof fn lemma_bytes_of_number(bytes: Seq<u8>)
    ensures
        big_endian(bytes_number(bytes), bytes.len()) == bytes,
    decreases bytes.len(),
{
    if bytes.len() > 0 {
        let front = bytes.drop_last();
        let last = bytes.last();
        lemma_bytes_of_number(front);
        let number = bytes_number(bytes);
        lemma_fundamental_div_mod_converse(
            number as int,
            256,
            bytes_number(front) as int,
            last as int,
        );
        assert(big_endian(number, bytes.len()) =~= front.push(last));
        assert(front.push(last) =~= bytes);
    }
}

} // verus!
