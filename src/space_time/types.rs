//! The deep embedding of Space-Time types.
use vstd::prelude::*;
use crate::chars::{push_all, default_bit_text, COMMA, DIGIT_ZERO, LBRACKET, LPAREN, RBRACKET, RPAREN};

verus! {

/// A type of a Space-Time expression's input or output.
#[derive(Debug, PartialEq, Eq)]
pub enum Type {
    Unit,
    Bit,
    Int8,
    UInt8,
    Int16,
    UInt16,
    Int32,
    UInt32,
    ATuple { left: Box<Type>, right: Box<Type> },
    STuple { n: u32, elem_type: Box<Type> },
    SSeq { n: u32, elem_type: Box<Type> },
    TSeq { n: u32, i: u32, elem_type: Box<Type> },
}

impl Type {
    /// Every container repeats its element at least once.
    pub open spec fn wf(&self) -> bool
        decreases self,
    {
        match self {
            Type::ATuple { left, right } => left.wf() && right.wf(),
            Type::STuple { n, elem_type } => *n >= 1 && elem_type.wf(),
            Type::SSeq { n, elem_type } => *n >= 1 && elem_type.wf(),
            Type::TSeq { n, i, elem_type } => *n >= 1 && elem_type.wf(),
            _ => true,
        }
    }

    /// Bits carried by one full value.
    pub open spec fn spec_size(&self) -> nat
        decreases self,
    {
        match self {
            Type::Unit => 0,
            Type::Bit => 1,
            Type::Int8 | Type::UInt8 => 8,
            Type::Int16 | Type::UInt16 => 16,
            Type::Int32 | Type::UInt32 => 32,
            Type::ATuple { left, right } => left.spec_size() + right.spec_size(),
            Type::STuple { n, elem_type } => *n as nat * elem_type.spec_size(),
            Type::SSeq { n, elem_type } => *n as nat * elem_type.spec_size(),
            Type::TSeq { n, i, elem_type } => elem_type.spec_size(),
        }
    }

    /// Lanes active in one valid cycle.
    pub open spec fn spec_atoms_per_valid(&self) -> nat
        decreases self,
    {
        match self {
            Type::STuple { n, elem_type } => *n as nat * elem_type.spec_atoms_per_valid(),
            Type::SSeq { n, elem_type } => *n as nat * elem_type.spec_atoms_per_valid(),
            Type::TSeq { n, i, elem_type } => elem_type.spec_atoms_per_valid(),
            _ => 1,
        }
    }

    /// Cycles taken, idle ones included.
    pub open spec fn spec_clocks(&self) -> nat
        decreases self,
    {
        match self {
            Type::STuple { n, elem_type } => elem_type.spec_clocks(),
            Type::SSeq { n, elem_type } => elem_type.spec_clocks(),
            Type::TSeq { n, i, elem_type } => (*n + *i) as nat * elem_type.spec_clocks(),
            _ => 1,
        }
    }

    /// Cycles that carry data.
    pub open spec fn spec_valid_clocks(&self) -> nat
        decreases self,
    {
        match self {
            Type::STuple { n, elem_type } => elem_type.spec_valid_clocks(),
            Type::SSeq { n, elem_type } => elem_type.spec_valid_clocks(),
            Type::TSeq { n, i, elem_type } => *n as nat * elem_type.spec_valid_clocks(),
            _ => 1,
        }
    }

    /// Whether some `TSeq` node inside the type has idle cycles.
    pub open spec fn has_idle(&self) -> bool
        decreases self,
    {
        match self {
            Type::STuple { n, elem_type } => elem_type.has_idle(),
            Type::SSeq { n, elem_type } => elem_type.has_idle(),
            Type::TSeq { n, i, elem_type } => *i > 0 || elem_type.has_idle(),
            _ => false,
        }
    }

    /// The default token of the leaf type, used for cells that carry no data.
    pub open spec fn spec_def_atom_str(&self) -> Seq<u8>
        decreases self,
    {
        match self {
            Type::Unit => seq![LPAREN, RPAREN],
            Type::Bit => default_bit_text(),
            Type::ATuple { left, right } => seq![LBRACKET] + left.spec_def_atom_str() + seq![COMMA]
                + right.spec_def_atom_str() + seq![RBRACKET],
            Type::STuple { n, elem_type } => elem_type.spec_def_atom_str(),
            Type::SSeq { n, elem_type } => elem_type.spec_def_atom_str(),
            Type::TSeq { n, i, elem_type } => elem_type.spec_def_atom_str(),
            _ => seq![DIGIT_ZERO],
        }
    }

    /// The element type of a container, or the type itself for a leaf or a pair.
    pub open spec fn spec_elem(&self) -> Type {
        match self {
            Type::STuple { n, elem_type } => **elem_type,
            Type::SSeq { n, elem_type } => **elem_type,
            Type::TSeq { n, i, elem_type } => **elem_type,
            _ => *self,
        }
    }

    /// All derived quantities of every node fit in a `u32`, and so does the
    /// number of cells of the whole grid.
    pub open spec fn fits(&self) -> bool
        decreases self,
    {
        &&& self.spec_size() <= u32::MAX
        &&& self.spec_clocks() * self.spec_atoms_per_valid() <= u32::MAX
        &&& match self {
            Type::ATuple { left, right } => left.fits() && right.fits(),
            Type::STuple { n, elem_type } => elem_type.fits(),
            Type::SSeq { n, elem_type } => elem_type.fits(),
            Type::TSeq { n, i, elem_type } => elem_type.fits(),
            _ => true,
        }
    }

    /// Compute the size in bits of a type.
    pub fn size(&self) -> (r: u32)
        requires
            self.spec_size() <= u32::MAX,
            self.wf(),
        ensures
            r == self.spec_size(),
        decreases self,
    {
        match self {
            Type::Unit => 0,
            Type::Bit => 1,
            Type::Int8 => 8,
            Type::UInt8 => 8,
            Type::Int16 => 16,
            Type::UInt16 => 16,
            Type::Int32 => 32,
            Type::UInt32 => 32,
            Type::ATuple { left, right } => left.size() + right.size(),
            Type::STuple { n, elem_type } => {
                proof { lemma_mul_ge_right(*n as nat, elem_type.spec_size()); }
                *n * elem_type.size()
            },
            Type::SSeq { n, elem_type } => {
                proof { lemma_mul_ge_right(*n as nat, elem_type.spec_size()); }
                *n * elem_type.size()
            },
            Type::TSeq { n: _, i: _, elem_type } => elem_type.size(),
        }
    }

    /// Compute the number of atoms per valid clock.
    pub fn atoms_per_valid(&self) -> (r: u32)
        requires
            self.spec_atoms_per_valid() <= u32::MAX,
            self.wf(),
        ensures
            r == self.spec_atoms_per_valid(),
        decreases self,
    {
        match self {
            Type::STuple { n, elem_type } => {
                proof { lemma_mul_ge_right(*n as nat, elem_type.spec_atoms_per_valid()); }
                *n * elem_type.atoms_per_valid()
            },
            Type::SSeq { n, elem_type } => {
                proof { lemma_mul_ge_right(*n as nat, elem_type.spec_atoms_per_valid()); }
                *n * elem_type.atoms_per_valid()
            },
            Type::TSeq { n: _, i: _, elem_type } => elem_type.atoms_per_valid(),
            _ => 1,
        }
    }

    /// Compute the number of clock cycles of a type, idle ones included.
    /// An atom takes one clock.
    pub fn clocks(&self) -> (r: u32)
        requires
            self.spec_clocks() <= u32::MAX,
            self.wf(),
        ensures
            r == self.spec_clocks(),
        decreases self,
    {
        match self {
            Type::STuple { n: _, elem_type } => elem_type.clocks(),
            Type::SSeq { n: _, elem_type } => elem_type.clocks(),
            Type::TSeq { n, i, elem_type } => {
                proof {
                    lemma_positive(**elem_type);
                    let c = elem_type.spec_clocks();
                    let k = (*n + *i) as nat;
                    assert(k <= k * c && c <= k * c) by (nonlinear_arith)
                        requires
                            c >= 1,
                            k >= 1,
                    ;
                }
                (*n + *i) * elem_type.clocks()
            },
            _ => 1,
        }
    }

    /// Compute the number of valid clock cycles of a type.
    /// An atom takes one clock.
    pub fn valid_clocks(&self) -> (r: u32)
        requires
            self.spec_valid_clocks() <= u32::MAX,
            self.wf(),
        ensures
            r == self.spec_valid_clocks(),
        decreases self,
    {
        match self {
            Type::STuple { n: _, elem_type } => elem_type.valid_clocks(),
            Type::SSeq { n: _, elem_type } => elem_type.valid_clocks(),
            Type::TSeq { n, i: _, elem_type } => {
                proof { lemma_mul_ge_right(*n as nat, elem_type.spec_valid_clocks()); }
                *n * elem_type.valid_clocks()
            },
            _ => 1,
        }
    }

    /// The token that fills a cell of this type that carries no data.
    pub fn def_atom_str(&self) -> (r: Vec<u8>)
        ensures
            r@ == self.spec_def_atom_str(),
        decreases self,
    {
        match self {
            Type::Unit => vec![LPAREN, RPAREN],
            Type::Bit => {
                let r = vec![70u8, 97u8, 108u8, 115u8, 101u8];
                assert(r@ =~= default_bit_text());
                r
            },
            Type::ATuple { left, right } => {
                let mut r = vec![LBRACKET];
                push_all(&mut r, &left.def_atom_str());
                r.push(COMMA);
                push_all(&mut r, &right.def_atom_str());
                r.push(RBRACKET);
                assert(r@ =~= self.spec_def_atom_str());
                r
            },
            Type::STuple { n: _, elem_type } => elem_type.def_atom_str(),
            Type::SSeq { n: _, elem_type } => elem_type.def_atom_str(),
            Type::TSeq { n: _, i: _, elem_type } => elem_type.def_atom_str(),
            _ => vec![DIGIT_ZERO],
        }
    }

    /// Whether the type can be lowered: every container repeats its element
    /// at least once and every derived quantity fits in a `u32`.
    pub fn is_lowerable(&self) -> (r: bool)
        ensures
            r == (self.wf() && self.fits()),
        decreases self, 0nat,
    {
        proof {
            lemma_fits_bounds(*self);
        }
        match self {
            Type::ATuple { left, right } => {
                if !left.is_lowerable() || !right.is_lowerable() {
                    return false;
                }
                proof {
                    lemma_fits_bounds(**left);
                    lemma_fits_bounds(**right);
                    assert(self.spec_clocks() == 1 && self.spec_atoms_per_valid() == 1);
                    assert(self.spec_clocks() * self.spec_atoms_per_valid() == 1);
                }
                (left.size() as u64) + (right.size() as u64) <= u32::MAX as u64
            },
            Type::STuple { n, elem_type } => {
                let r = spatial_fits(*n, elem_type);
                assert(self.spec_clocks() * self.spec_atoms_per_valid() == elem_type.spec_clocks() * (
                *n as nat * elem_type.spec_atoms_per_valid()));
                r
            },
            Type::SSeq { n, elem_type } => {
                let r = spatial_fits(*n, elem_type);
                assert(self.spec_clocks() * self.spec_atoms_per_valid() == elem_type.spec_clocks() * (
                *n as nat * elem_type.spec_atoms_per_valid()));
                r
            },
            Type::TSeq { n, i, elem_type } => {
                if *n == 0 || !elem_type.is_lowerable() {
                    return false;
                }
                proof { lemma_fits_bounds(**elem_type); }
                let c = elem_type.clocks() as u128;
                let a = elem_type.atoms_per_valid() as u128;
                let reps = (*n as u128) + (*i as u128);
                proof {
                    assert(reps * (c * a) <= 0x2_0000_0000u128 * 0xffff_ffffu128) by (nonlinear_arith)
                        requires
                            reps <= 0x2_0000_0000u128,
                            c * a <= 0xffff_ffffu128,
                    ;
                }
                proof {
                    let k = (*n + *i) as nat;
                    let ec = elem_type.spec_clocks();
                    let ea = elem_type.spec_atoms_per_valid();
                    assert(k * (ec * ea) == (k * ec) * ea) by (nonlinear_arith);
                }
                reps * (c * a) <= u32::MAX as u128
            },
            _ => {
                assert(self.spec_clocks() == 1 && self.spec_atoms_per_valid() == 1);
                    assert(self.spec_clocks() * self.spec_atoms_per_valid() == 1);
                true
            },
        }
    }
}

/// Spatial replication of `elem_type`, `n` times, can be lowered.
fn spatial_fits(n: u32, elem_type: &Type) -> (r: bool)
    ensures
        r == (n >= 1 && elem_type.wf() && elem_type.fits()
            && n as nat * elem_type.spec_size() <= u32::MAX
            && elem_type.spec_clocks() * (n as nat * elem_type.spec_atoms_per_valid()) <= u32::MAX),
    decreases elem_type, 1nat,
{
    if n == 0 || !elem_type.is_lowerable() {
        return false;
    }
    proof { lemma_fits_bounds(*elem_type); }
    let s = elem_type.size() as u128;
    let c = elem_type.clocks() as u128;
    let a = elem_type.atoms_per_valid() as u128;
    let k = n as u128;
    proof {
        assert(c * (k * a) <= 0xffff_ffffu128 * (0xffff_ffffu128 * 0xffff_ffffu128)) by (nonlinear_arith)
            requires
                c <= 0xffff_ffffu128,
                a <= 0xffff_ffffu128,
                k <= 0xffff_ffffu128,
        ;
        assert(k * a <= 0xffff_ffffu128 * 0xffff_ffffu128) by (nonlinear_arith)
            requires
                a <= 0xffff_ffffu128,
                k <= 0xffff_ffffu128,
        ;
        assert(k * s <= 0xffff_ffffu128 * 0xffff_ffffu128) by (nonlinear_arith)
            requires
                s <= 0xffff_ffffu128,
                k <= 0xffff_ffffu128,
        ;
    }
    k * s <= u32::MAX as u128 && c * (k * a) <= u32::MAX as u128
}

/// In a well-formed type every lane count and cycle count is positive.
pub proof fn lemma_positive(t: Type)
    requires
        t.wf(),
    ensures
        t.spec_atoms_per_valid() >= 1,
        t.spec_clocks() >= 1,
        t.spec_valid_clocks() >= 1,
    decreases t,
{
    match t {
        Type::STuple { n, elem_type } => {
            lemma_positive(*elem_type);
            lemma_mul_ge_right(n as nat, elem_type.spec_atoms_per_valid());
        },
        Type::SSeq { n, elem_type } => {
            lemma_positive(*elem_type);
            lemma_mul_ge_right(n as nat, elem_type.spec_atoms_per_valid());
        },
        Type::TSeq { n, i, elem_type } => {
            lemma_positive(*elem_type);
            lemma_mul_ge_right((n + i) as nat, elem_type.spec_clocks());
            lemma_mul_ge_right(n as nat, elem_type.spec_valid_clocks());
        },
        _ => {},
    }
}

/// A type's total cycles are never fewer than its valid cycles, and are equal
/// to them exactly when no `TSeq` inside it has idle cycles.
pub proof fn lemma_clocks_ge_valid_clocks(t: Type)
    requires
        t.wf(),
    ensures
        t.spec_clocks() >= t.spec_valid_clocks(),
        t.spec_clocks() == t.spec_valid_clocks() <==> !t.has_idle(),
    decreases t,
{
    match t {
        Type::STuple { n, elem_type } => lemma_clocks_ge_valid_clocks(*elem_type),
        Type::SSeq { n, elem_type } => lemma_clocks_ge_valid_clocks(*elem_type),
        Type::TSeq { n, i, elem_type } => {
            lemma_clocks_ge_valid_clocks(*elem_type);
            lemma_positive(*elem_type);
            let c = elem_type.spec_clocks();
            let v = elem_type.spec_valid_clocks();
            let a = n as nat;
            let b = i as nat;
            assert((a + b) * c >= a * v) by (nonlinear_arith)
                requires
                    c >= v,
            ;
            assert((a + b) * c == a * v <==> (b == 0 && c == v)) by (nonlinear_arith)
                requires
                    c >= v,
                    v >= 1,
                    a >= 1,
            ;
        },
        _ => {},
    }
}

/// In a type that can be lowered, each derived quantity fits in a `u32` and
/// the valid part of the grid is no larger than the grid.
pub proof fn lemma_fits_bounds(t: Type)
    ensures
        t.wf() && t.fits() ==> {
            &&& t.spec_size() <= u32::MAX
            &&& t.spec_atoms_per_valid() <= u32::MAX
            &&& t.spec_clocks() <= u32::MAX
            &&& t.spec_valid_clocks() <= t.spec_clocks()
            &&& t.spec_valid_clocks() * t.spec_atoms_per_valid() <= t.spec_clocks()
                * t.spec_atoms_per_valid()
        },
{
    if t.wf() && t.fits() {
        lemma_positive(t);
        lemma_clocks_ge_valid_clocks(t);
        let c = t.spec_clocks();
        let a = t.spec_atoms_per_valid();
        let v = t.spec_valid_clocks();
        assert(c <= c * a && a <= c * a && v * a <= c * a) by (nonlinear_arith)
            requires
                c >= 1,
                a >= 1,
                v <= c,
        ;
    }
}

/// `TSeq` multiplies its element's total cycles by `n + i` and its valid
/// cycles by `n`, and keeps its element's lanes.
pub proof fn lemma_tseq_quantities(n: u32, i: u32, elem: Type)
    ensures
        (Type::TSeq { n, i, elem_type: Box::new(elem) }).spec_clocks() == (n + i) as nat * elem.spec_clocks(),
        (Type::TSeq { n, i, elem_type: Box::new(elem) }).spec_valid_clocks() == n as nat * elem.spec_valid_clocks(),
        (Type::TSeq { n, i, elem_type: Box::new(elem) }).spec_atoms_per_valid() == elem.spec_atoms_per_valid(),
{
}

/// `STuple` and `SSeq` multiply their element's lanes by `n` and keep its
/// total and valid cycles.
pub proof fn lemma_spatial_quantities(n: u32, elem: Type)
    ensures
        (Type::STuple { n, elem_type: Box::new(elem) }).spec_atoms_per_valid() == n as nat * elem.spec_atoms_per_valid(),
        (Type::STuple { n, elem_type: Box::new(elem) }).spec_clocks() == elem.spec_clocks(),
        (Type::STuple { n, elem_type: Box::new(elem) }).spec_valid_clocks() == elem.spec_valid_clocks(),
        (Type::SSeq { n, elem_type: Box::new(elem) }).spec_atoms_per_valid() == n as nat * elem.spec_atoms_per_valid(),
        (Type::SSeq { n, elem_type: Box::new(elem) }).spec_clocks() == elem.spec_clocks(),
        (Type::SSeq { n, elem_type: Box::new(elem) }).spec_valid_clocks() == elem.spec_valid_clocks(),
{
}

/// `b <= a * b` when `a` is positive.
pub proof fn lemma_mul_ge_right(a: nat, b: nat)
    requires
        a >= 1,
    ensures
        b <= a * b,
{
    assert(b <= a * b) by (nonlinear_arith)
        requires
            a >= 1,
    ;
}

} // verus!
