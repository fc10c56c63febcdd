//! ASCII codes of the characters that tokens and rendered streams use.
use vstd::prelude::*;

verus! {

pub const LPAREN: u8 = 40;

pub const RPAREN: u8 = 41;

pub const COMMA: u8 = 44;

pub const MINUS: u8 = 45;

pub const DIGIT_ZERO: u8 = 48;

pub const LBRACKET: u8 = 91;

pub const RBRACKET: u8 = 93;

/// The token of `false` in a value: `false`.
pub open spec fn false_text() -> Seq<u8> {
    seq![102u8, 97u8, 108u8, 115u8, 101u8]
}

/// The token of `true` in a value: `true`.
pub open spec fn true_text() -> Seq<u8> {
    seq![116u8, 114u8, 117u8, 101u8]
}

/// The default token of a bit: `False`.
pub open spec fn default_bit_text() -> Seq<u8> {
    seq![70u8, 97u8, 108u8, 115u8, 101u8]
}

/// `true` or `false` as text.
pub open spec fn bool_text(b: bool) -> Seq<u8> {
    if b { true_text() } else { false_text() }
}

/// Builds the text of `b`.
pub fn bool_bytes(b: bool) -> (r: Vec<u8>)
    ensures
        r@ == bool_text(b),
{
    let r = if b {
        vec![116u8, 114u8, 117u8, 101u8]
    } else {
        vec![102u8, 97u8, 108u8, 115u8, 101u8]
    };
    assert(r@ =~= bool_text(b));
    r
}

/// Appends `src` to the end of `dst`.
pub fn push_all(dst: &mut Vec<u8>, src: &Vec<u8>)
    ensures
        final(dst)@ == old(dst)@ + src@,
{
    let mut k: usize = 0;
    while k < src.len()
        invariant
            k <= src@.len(),
            dst@ == old(dst)@ + src@.subrange(0, k as int),
        decreases src@.len() - k,
    {
        dst.push(src[k]);
        k = k + 1;
        assert(src@.subrange(0, k as int) =~= src@.subrange(0, k - 1) + seq![src@[k - 1]]);
    }
    assert(src@.subrange(0, src@.len() as int) =~= src@);
}

} // verus!
