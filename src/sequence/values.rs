//! Sequence values and their flattening into a list of atom tokens.
use vstd::prelude::*;
use crate::chars::{bool_bytes, bool_text, push_all, COMMA, DIGIT_ZERO, LPAREN, MINUS, RPAREN};
use crate::error::ConvertError;

verus! {

/// A value of the Sequence language: an atom, a pair, or an ordered
/// sequence of values.
#[derive(Debug, PartialEq, Eq)]
pub enum Value {
    Int(i32),
    Bit(bool),
    Tuple(Box<Value>, Box<Value>),
    Sequence(Vec<Value>),
}

/// The decimal digits of `n`, most significant first.
pub open spec fn digits(n: nat) -> Seq<u8>
    decreases n,
{
    if n < 10 {
        seq![(DIGIT_ZERO + n) as u8]
    } else {
        digits(n / 10).push((DIGIT_ZERO + n % 10) as u8)
    }
}

/// The decimal text of an integer, with a leading `-` when negative.
pub open spec fn int_text(x: int) -> Seq<u8> {
    if x < 0 {
        seq![MINUS] + digits((-x) as nat)
    } else {
        digits(x as nat)
    }
}

/// The token of a value made of atoms and pairs only: decimal integers,
/// `true` / `false`, and `(left,right)` for a pair.
pub open spec fn atom_text(v: Value) -> Option<Seq<u8>>
    decreases v,
{
    match v {
        Value::Int(x) => Some(int_text(x as int)),
        Value::Bit(b) => Some(bool_text(b)),
        Value::Tuple(a, b) => match (atom_text(*a), atom_text(*b)) {
            (Some(x), Some(y)) => Some(seq![LPAREN] + x + seq![COMMA] + y + seq![RPAREN]),
            _ => None,
        },
        Value::Sequence(_) => None,
    }
}

/// The depth-first flattening of a value into tokens: one token for each
/// atom and each pair, in order. `None` when a pair holds a sequence.
pub open spec fn flat_atoms(v: Value) -> Option<Seq<Seq<u8>>>
    decreases v, 1nat,
{
    match v {
        Value::Sequence(es) => flat_seq(es@),
        _ => match atom_text(v) {
            Some(t) => Some(seq![t]),
            None => None,
        },
    }
}

/// The flattenings of a sequence's elements, one after another.
pub open spec fn flat_seq(s: Seq<Value>) -> Option<Seq<Seq<u8>>>
    decreases s, 0nat,
{
    if s.len() == 0 {
        Some(Seq::empty())
    } else {
        match (flat_seq(s.subrange(0, s.len() - 1)), flat_atoms(s[s.len() - 1])) {
            (Some(a), Some(b)) => Some(a + b),
            _ => None,
        }
    }
}

/// A sequence flattens only if each of its elements does.
pub proof fn lemma_flat_seq_elements(s: Seq<Value>, k: int)
    requires
        0 <= k < s.len(),
        flat_atoms(s[k]) is None,
    ensures
        flat_seq(s) is None,
    decreases s.len(),
{
    if k < s.len() - 1 {
        let p = s.subrange(0, s.len() - 1);
        assert(p[k] == s[k]);
        lemma_flat_seq_elements(p, k);
    }
}

/// Appends the decimal digits of `n` to `out`.
fn push_digits(out: &mut Vec<u8>, n: u32)
    ensures
        final(out)@ == old(out)@ + digits(n as nat),
    decreases n,
{
    if n >= 10 {
        push_digits(out, n / 10);
    }
    out.push(DIGIT_ZERO + (n % 10) as u8);
    assert(final(out)@ =~= old(out)@ + digits(n as nat)) by {
        if n >= 10 {
            assert(digits(n as nat) == digits((n / 10) as nat).push((DIGIT_ZERO + n % 10) as u8));
        }
    }
}

/// The decimal text of `x`.
pub fn int_bytes(x: i32) -> (r: Vec<u8>)
    ensures
        r@ == int_text(x as int),
{
    let mut r: Vec<u8> = Vec::new();
    if x < 0 {
        r.push(MINUS);
        let m: u32 = (0i64 - x as i64) as u32;
        push_digits(&mut r, m);
        assert(r@ =~= int_text(x as int));
    } else {
        push_digits(&mut r, x as u32);
        assert(r@ =~= int_text(x as int));
    }
    r
}

impl Value {
    /// The token of an atom or a pair of atoms.
    fn atom_token(&self) -> (r: Result<Vec<u8>, ConvertError>)
        ensures
            match atom_text(*self) {
                Some(t) => r matches Ok(b) && b@ == t,
                None => r == Err::<Vec<u8>, ConvertError>(ConvertError::TupleOfSequence),
            },
        decreases self,
    {
        match self {
            Value::Int(x) => Ok(int_bytes(*x)),
            Value::Bit(b) => Ok(bool_bytes(*b)),
            Value::Tuple(a, b) => {
                let x = a.atom_token()?;
                let y = b.atom_token()?;
                let mut r = vec![LPAREN];
                push_all(&mut r, &x);
                r.push(COMMA);
                push_all(&mut r, &y);
                r.push(RPAREN);
                assert(r@ =~= seq![LPAREN] + x@ + seq![COMMA] + y@ + seq![RPAREN]);
                Ok(r)
            },
            Value::Sequence(_) => Err(ConvertError::TupleOfSequence),
        }
    }

    /// Appends the depth-first flattening of this value to `builder`.
    fn flatten_into(&self, builder: &mut Vec<Vec<u8>>) -> (r: Result<(), ConvertError>)
        ensures
            match flat_atoms(*self) {
                Some(toks) => r is Ok && final(builder).deep_view() == old(builder).deep_view() + toks,
                None => r == Err::<(), ConvertError>(ConvertError::TupleOfSequence),
            },
        decreases self,
    {
        match self {
            Value::Sequence(es) => {
                let mut k: usize = 0;
                while k < es.len()
                    invariant
                        0 <= k <= es@.len(),
                        *self == Value::Sequence(*es),
                        flat_seq(es@.subrange(0, k as int)) is Some,
                        builder.deep_view() == old(builder).deep_view() + flat_seq(
                            es@.subrange(0, k as int),
                        )->0,
                    decreases es@.len() - k,
                {
                    assert(es@.subrange(0, k + 1).subrange(0, k as int) =~= es@.subrange(0, k as int));
                    assert(es@.subrange(0, k + 1)[k as int] == es@[k as int]);
                    assert(decreases_to!(*self => es@[k as int]));
                    match es[k].flatten_into(builder) {
                        Ok(()) => {},
                        Err(e) => {
                            proof { lemma_flat_seq_elements(es@, k as int); }
                            return Err(e);
                        },
                    }
                    k = k + 1;
                    assert(builder.deep_view() =~= old(builder).deep_view() + flat_seq(es@.subrange(0, k as int))->0);
                }
                assert(es@.subrange(0, es@.len() as int) =~= es@);
                Ok(())
            },
            _ => {
                let t = self.atom_token()?;
                assert(t.deep_view() =~= t@);
                builder.push(t);
                assert(builder.deep_view() =~= old(builder).deep_view() + flat_atoms(*self)->0);
                Ok(())
            },
        }
    }
}

/// Values that flatten into a list of atom tokens.
pub trait ToAtomStrings {
    /// The tokens of the value, in depth-first order; `None` when the value
    /// cannot be flattened.
    spec fn atom_tokens(&self) -> Option<Seq<Seq<u8>>>;

    /// Appends the value's tokens to `builder`: one token for each atom and
    /// each pair of atoms, in order. Nothing is appended when the value
    /// cannot be flattened.
    fn convert_to_flat_atom_list(&self, builder: &mut Vec<Vec<u8>>) -> (r: Result<(), ConvertError>)
        ensures
            match self.atom_tokens() {
                Some(toks) => r is Ok && final(builder).deep_view() == old(builder).deep_view() + toks,
                None => r == Err::<(), ConvertError>(ConvertError::TupleOfSequence) && final(builder)@
                    == old(builder)@,
            },
    ;
}

impl ToAtomStrings for Value {
    open spec fn atom_tokens(&self) -> Option<Seq<Seq<u8>>> {
        flat_atoms(*self)
    }

    fn convert_to_flat_atom_list(&self, builder: &mut Vec<Vec<u8>>) -> (r: Result<(), ConvertError>) {
        let mut tokens: Vec<Vec<u8>> = Vec::new();
        self.flatten_into(&mut tokens)?;
        let ghost before = builder.deep_view();
        let ghost added = tokens.deep_view();
        builder.append(&mut tokens);
        assert(builder.deep_view() =~= before + added);
        Ok(())
    }
}

} // verus!
