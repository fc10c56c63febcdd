//! Lowering a Sequence value onto a Space-Time type and rendering the
//! resulting grid and validity vector as two textual arrays.
use vstd::prelude::*;
use crate::chars::{bool_bytes, bool_text, push_all, COMMA, LBRACKET, RBRACKET};
use crate::error::ConvertError;
use crate::sequence::values::{atom_text, flat_atoms, flat_seq, ToAtomStrings, Value};
use crate::space_time::lowering::{
    cell_index, lemma_cell_index_bounds, placed_cell, placed_valid, rows_at_least,
    set_val_in_time_space_vec, time_valid,
};
use crate::space_time::types::{lemma_fits_bounds, lemma_positive, Type};

verus! {

/// The items joined by commas.
pub open spec fn joined(items: Seq<Seq<u8>>) -> Seq<u8>
    decreases items.len(),
{
    if items.len() == 0 {
        Seq::empty()
    } else if items.len() == 1 {
        items[0]
    } else {
        joined(items.drop_last()) + seq![COMMA] + items.last()
    }
}

/// The token shown in cycle `tau`, lane `sigma`, when `toks` is lowered onto
/// `t`: the atom placed there on a valid cycle, the type's default token on an
/// idle one.
pub open spec fn lowered_token(t: Type, toks: Seq<Seq<u8>>, tau: int, sigma: int) -> Seq<u8> {
    if time_valid(t, tau) {
        toks[cell_index(t, tau, sigma)]
    } else {
        t.spec_def_atom_str()
    }
}

/// The text of one cycle: the token alone when the type has one lane, else
/// the bracketed list of its lanes' tokens.
pub open spec fn cycle_text(t: Type, toks: Seq<Seq<u8>>, tau: int) -> Seq<u8> {
    if t.spec_atoms_per_valid() == 1 {
        lowered_token(t, toks, tau, 0)
    } else {
        seq![LBRACKET] + joined(
            Seq::new(t.spec_atoms_per_valid(), |sigma: int| lowered_token(t, toks, tau, sigma)),
        ) + seq![RBRACKET]
    }
}

/// The values stream: the bracketed list of the cycles' texts.
pub open spec fn values_text(t: Type, toks: Seq<Seq<u8>>) -> Seq<u8> {
    seq![LBRACKET] + joined(Seq::new(t.spec_clocks(), |tau: int| cycle_text(t, toks, tau)))
        + seq![RBRACKET]
}

/// The validity stream: the bracketed list of one boolean per cycle.
pub open spec fn valids_text(t: Type) -> Seq<u8> {
    seq![LBRACKET] + joined(Seq::new(t.spec_clocks(), |tau: int| bool_text(time_valid(t, tau))))
        + seq![RBRACKET]
}

/// What lowering `v` onto `t` gives: the flat tokens, or the mismatch found.
pub open spec fn lowering(v: Value, t: Type) -> Result<Seq<Seq<u8>>, ConvertError> {
    if !(t.wf() && t.fits()) {
        Err(ConvertError::InvalidType)
    } else {
        match flat_atoms(v) {
            None => Err(ConvertError::TupleOfSequence),
            Some(toks) => if toks.len() != t.spec_valid_clocks() * t.spec_atoms_per_valid() {
                Err(
                    ConvertError::AtomCount {
                        expected: (t.spec_valid_clocks() * t.spec_atoms_per_valid()) as usize,
                        found: toks.len() as usize,
                    },
                )
            } else {
                Ok(toks)
            },
        }
    }
}

/// A type made of atoms and pairs only.
pub open spec fn is_atomic(t: Type) -> bool
    decreases t,
{
    match t {
        Type::ATuple { left, right } => is_atomic(*left) && is_atomic(*right),
        Type::STuple { .. } | Type::SSeq { .. } | Type::TSeq { .. } => false,
        _ => true,
    }
}

/// `v` has the shape of `t`: an atom for a leaf, a pair of matching values
/// for a pair of atomic types, and a sequence of `n` matching values for a
/// container of `n` elements.
pub open spec fn matches_type(v: Value, t: Type) -> bool
    decreases t, 0nat,
{
    match t {
        Type::ATuple { left, right } => is_atomic(*left) && is_atomic(*right) && match v {
            Value::Tuple(a, b) => matches_type(*a, *left) && matches_type(*b, *right),
            _ => false,
        },
        Type::STuple { n, elem_type } => elements_match(v, n, *elem_type),
        Type::SSeq { n, elem_type } => elements_match(v, n, *elem_type),
        Type::TSeq { n, i, elem_type } => elements_match(v, n, *elem_type),
        _ => v is Int || v is Bit,
    }
}

/// `v` is a sequence of `n` values of the shape of `e`.
pub open spec fn elements_match(v: Value, n: u32, e: Type) -> bool
    decreases e, 1nat,
{
    match v {
        Value::Sequence(es) => es@.len() == n && forall|k: int|
            0 <= k < es@.len() ==> matches_type(#[trigger] es@[k], e),
        _ => false,
    }
}

/// A value of an atomic type has a token.
proof fn lemma_atomic_has_text(v: Value, t: Type)
    requires
        is_atomic(t),
        matches_type(v, t),
    ensures
        atom_text(v) is Some,
    decreases t,
{
    if let Type::ATuple { left, right } = t {
        if let Value::Tuple(a, b) = v {
            lemma_atomic_has_text(*a, *left);
            lemma_atomic_has_text(*b, *right);
        }
    }
}

/// Round-trip sizing: flattening a value that has the shape of a type gives
/// exactly `valid_clocks * atoms_per_valid` tokens, so the value lowers onto
/// the type whenever the type can be lowered at all.
pub proof fn lemma_flat_size(v: Value, t: Type)
    requires
        t.wf(),
        matches_type(v, t),
    ensures
        flat_atoms(v) is Some,
        flat_atoms(v)->0.len() == t.spec_valid_clocks() * t.spec_atoms_per_valid(),
        t.fits() ==> lowering(v, t) == Ok::<Seq<Seq<u8>>, ConvertError>(flat_atoms(v)->0),
    decreases t, 0nat, 0int,
{
    match t {
        Type::ATuple { left, right } => {
            lemma_atomic_has_text(v, t);
        },
        Type::STuple { n, elem_type } => {
            assert(elements_match(v, n, *elem_type));
            if let Value::Sequence(es) = v {
                lemma_prefix_size(es@, es@.len() as int, *elem_type);
                assert(es@.subrange(0, es@.len() as int) =~= es@);
            }
            let a = elem_type.spec_atoms_per_valid() as int;
            let c = elem_type.spec_valid_clocks() as int;
            assert(n * (c * a) == c * (n * a)) by (nonlinear_arith);
        },
        Type::SSeq { n, elem_type } => {
            assert(elements_match(v, n, *elem_type));
            if let Value::Sequence(es) = v {
                lemma_prefix_size(es@, es@.len() as int, *elem_type);
                assert(es@.subrange(0, es@.len() as int) =~= es@);
            }
            let a = elem_type.spec_atoms_per_valid() as int;
            let c = elem_type.spec_valid_clocks() as int;
            assert(n * (c * a) == c * (n * a)) by (nonlinear_arith);
        },
        Type::TSeq { n, i, elem_type } => {
            assert(elements_match(v, n, *elem_type));
            if let Value::Sequence(es) = v {
                lemma_prefix_size(es@, es@.len() as int, *elem_type);
                assert(es@.subrange(0, es@.len() as int) =~= es@);
            }
            let a = elem_type.spec_atoms_per_valid() as int;
            let c = elem_type.spec_valid_clocks() as int;
            assert(n * (c * a) == (n * c) * a) by (nonlinear_arith);
        },
        _ => {},
    }
}

/// The first `k` of a sequence of values of the shape of `e` flatten to `k`
/// times the tokens of one.
proof fn lemma_prefix_size(es: Seq<Value>, k: int, e: Type)
    requires
        e.wf(),
        0 <= k <= es.len(),
        forall|j: int| 0 <= j < es.len() ==> matches_type(#[trigger] es[j], e),
    ensures
        flat_seq(es.subrange(0, k)) is Some,
        flat_seq(es.subrange(0, k))->0.len() == k * (e.spec_valid_clocks() * e.spec_atoms_per_valid()),
    decreases e, 1nat, k,
{
    let m = e.spec_valid_clocks() * e.spec_atoms_per_valid();
    if k > 0 {
        lemma_prefix_size(es, k - 1, e);
        lemma_flat_size(es[k - 1], e);
        assert(es.subrange(0, k).subrange(0, k - 1) =~= es.subrange(0, k - 1));
        assert(es.subrange(0, k)[k - 1] == es[k - 1]);
        assert((k - 1) * m + m == k * m) by (nonlinear_arith);
    } else {
        assert(es.subrange(0, 0).len() == 0);
    }
}

/// Joining one more item adds a comma (unless it is the first) and the item.
pub proof fn lemma_joined_step(items: Seq<Seq<u8>>, k: int)
    requires
        0 <= k < items.len(),
    ensures
        joined(items.subrange(0, k + 1)) == joined(items.subrange(0, k)) + (if k == 0 {
            Seq::<u8>::empty()
        } else {
            seq![COMMA]
        }) + items[k],
{
    let p = items.subrange(0, k + 1);
    assert(p.drop_last() =~= items.subrange(0, k));
    if k == 0 {
        assert(joined(items.subrange(0, 0)) =~= Seq::<u8>::empty());
        assert(joined(p) == p[0]);
        assert(Seq::<u8>::empty() + Seq::<u8>::empty() + items[0] =~= items[0]);
    }
}

/// Builds the grid of a type and its validity vector: each cell of a valid
/// cycle holds the flat position of its atom, each cell of an idle cycle
/// holds `None`.
fn convert_seq_idxs_to_vals_to_time_space_vec(st_type: &Type) -> (r: (Vec<Vec<Option<usize>>>, Vec<bool>))
    requires
        st_type.wf(),
        st_type.fits(),
    ensures
        r.0@.len() == st_type.spec_clocks(),
        r.1@.len() == st_type.spec_clocks(),
        forall|tau: int|
            0 <= tau < st_type.spec_clocks() ==> #[trigger] r.0@[tau]@.len()
                == st_type.spec_atoms_per_valid(),
        forall|tau: int, sigma: int|
            0 <= tau < st_type.spec_clocks() && 0 <= sigma < st_type.spec_atoms_per_valid()
                ==> #[trigger] r.0@[tau]@[sigma] == if time_valid(*st_type, tau) {
                Some(cell_index(*st_type, tau, sigma) as usize)
            } else {
                None
            },
        forall|tau: int| 0 <= tau < st_type.spec_clocks() ==> #[trigger] r.1@[tau] == time_valid(*st_type, tau),
{
    proof { lemma_fits_bounds(*st_type); }
    let total_width = st_type.atoms_per_valid();
    let total_time = st_type.clocks();
    let valid_time = st_type.valid_clocks();
    let mut time_space_values_vec: Vec<Vec<Option<usize>>> = Vec::new();
    let mut time_valids_vec: Vec<bool> = Vec::new();
    let mut t: u32 = 0;
    while t < total_time
        invariant
            t <= total_time,
            time_space_values_vec@.len() == t,
            time_valids_vec@.len() == t,
            forall|tau: int| 0 <= tau < t ==> #[trigger] time_space_values_vec@[tau]@.len() == total_width,
            forall|tau: int, sigma: int|
                0 <= tau < t && 0 <= sigma < total_width ==> #[trigger] time_space_values_vec@[tau]@[sigma] is None,
            forall|tau: int| 0 <= tau < t ==> #[trigger] time_valids_vec@[tau],
        decreases total_time - t,
    {
        let mut inner_vec: Vec<Option<usize>> = Vec::new();
        let mut s: u32 = 0;
        while s < total_width
            invariant
                s <= total_width,
                inner_vec@.len() == s,
                forall|sigma: int| 0 <= sigma < s ==> #[trigger] inner_vec@[sigma] is None,
            decreases total_width - s,
        {
            inner_vec.push(None);
            s = s + 1;
        }
        time_space_values_vec.push(inner_vec);
        time_valids_vec.push(true);
        t = t + 1;
    }
    let ghost grid0 = time_space_values_vec@;
    let ghost valids0 = time_valids_vec@;
    proof {
        assert(rows_at_least(grid0, total_width as int));
    }
    set_val_in_time_space_vec(
        &mut time_space_values_vec,
        &mut time_valids_vec,
        st_type,
        total_width,
        total_time,
        valid_time,
        0,
        0,
        true,
        0,
    );
    proof {
        assert forall|tau: int, sigma: int|
            0 <= tau < st_type.spec_clocks() && 0 <= sigma < st_type.spec_atoms_per_valid() implies #[trigger] time_space_values_vec@[tau]@[sigma] == if time_valid(*st_type, tau) {
                Some(cell_index(*st_type, tau, sigma) as usize)
            } else {
                None
            } by {
            assert(grid0[tau]@[sigma] is None);
        }
        assert forall|tau: int| 0 <= tau < st_type.spec_clocks() implies #[trigger] time_valids_vec@[tau] == time_valid(*st_type, tau) by {
            assert(valids0[tau]);
        }
    }
    (time_space_values_vec, time_valids_vec)
}

/// The grid row of cycle `tau` of type `t`, as built for rendering.
pub open spec fn row_matches(t: Type, tau: int, row: Seq<Option<usize>>) -> bool {
    &&& row.len() == t.spec_atoms_per_valid()
    &&& forall|sigma: int|
        0 <= sigma < t.spec_atoms_per_valid() ==> #[trigger] row[sigma] == if time_valid(t, tau) {
            Some(cell_index(t, tau, sigma) as usize)
        } else {
            None
        }
}

/// Appends the token of a cell to `sink`.
fn render_cell(
    cell: Option<usize>,
    flat: &Vec<Vec<u8>>,
    def: &Vec<u8>,
    st_type: &Type,
    tau: Ghost<int>,
    sigma: Ghost<int>,
    sink: &mut Vec<u8>,
)
    requires
        st_type.wf(),
        st_type.fits(),
        0 <= tau@ < st_type.spec_clocks(),
        0 <= sigma@ < st_type.spec_atoms_per_valid(),
        flat.deep_view().len() == st_type.spec_valid_clocks() * st_type.spec_atoms_per_valid(),
        def@ == st_type.spec_def_atom_str(),
        cell == if time_valid(*st_type, tau@) {
            Some(cell_index(*st_type, tau@, sigma@) as usize)
        } else {
            None
        },
    ensures
        final(sink)@ == old(sink)@ + lowered_token(*st_type, flat.deep_view(), tau@, sigma@),
{
    match cell {
        Some(k) => {
            proof {
                lemma_cell_index_bounds(*st_type, tau@, sigma@);
                lemma_fits_bounds(*st_type);
            }
            push_all(sink, &flat[k]);
            proof {
                assert(flat@[k as int].deep_view() =~= flat@[k as int]@);
            }
        },
        None => {
            push_all(sink, def);
        },
    }
}

/// Appends the text of cycle `tau` to `sink`.
fn render_cycle(
    row: &Vec<Option<usize>>,
    flat: &Vec<Vec<u8>>,
    def: &Vec<u8>,
    st_type: &Type,
    total_width: u32,
    tau: Ghost<int>,
    sink: &mut Vec<u8>,
)
    requires
        st_type.wf(),
        st_type.fits(),
        total_width == st_type.spec_atoms_per_valid(),
        0 <= tau@ < st_type.spec_clocks(),
        row_matches(*st_type, tau@, row@),
        flat.deep_view().len() == st_type.spec_valid_clocks() * st_type.spec_atoms_per_valid(),
        def@ == st_type.spec_def_atom_str(),
    ensures
        final(sink)@ == old(sink)@ + cycle_text(*st_type, flat.deep_view(), tau@),
{
    let ghost t = *st_type;
    let ghost toks = flat.deep_view();
    if total_width == 1 {
        render_cell(row[0], flat, def, st_type, tau, Ghost(0), sink);
    } else {
        let ghost items = Seq::new(t.spec_atoms_per_valid(), |sigma: int| lowered_token(t, toks, tau@, sigma));
        let ghost start = sink@;
        sink.push(LBRACKET);
        let mut s: u32 = 0;
        while s < total_width
            invariant
                s <= total_width,
                st_type.wf(),
                st_type.fits(),
                t == *st_type,
                toks == flat.deep_view(),
                total_width == t.spec_atoms_per_valid(),
                0 <= tau@ < t.spec_clocks(),
                row_matches(t, tau@, row@),
                toks.len() == t.spec_valid_clocks() * t.spec_atoms_per_valid(),
                def@ == t.spec_def_atom_str(),
                items == Seq::new(t.spec_atoms_per_valid(), |sigma: int| lowered_token(t, toks, tau@, sigma)),
                sink@ == start + seq![LBRACKET] + joined(items.subrange(0, s as int)),
            decreases total_width - s,
        {
            proof { lemma_joined_step(items, s as int); }
            if s > 0 {
                sink.push(COMMA);
            }
            render_cell(row[s as usize], flat, def, st_type, tau, Ghost(s as int), sink);
            s = s + 1;
            proof {
                if s == 1 {
                    assert(sink@ =~= start + seq![LBRACKET] + joined(items.subrange(0, s as int)));
                } else {
                    assert(sink@ =~= start + seq![LBRACKET] + joined(items.subrange(0, s as int)));
                }
            }
        }
        sink.push(RBRACKET);
        proof {
            assert(items.subrange(0, total_width as int) =~= items);
            assert(sink@ =~= start + cycle_text(t, toks, tau@));
        }
    }
}

/// Appends the values stream of the grid to `sink`.
fn render_values(
    grid: &Vec<Vec<Option<usize>>>,
    flat: &Vec<Vec<u8>>,
    def: &Vec<u8>,
    st_type: &Type,
    total_width: u32,
    total_time: u32,
    sink: &mut Vec<u8>,
)
    requires
        st_type.wf(),
        st_type.fits(),
        total_width == st_type.spec_atoms_per_valid(),
        total_time == st_type.spec_clocks(),
        grid@.len() == total_time,
        forall|tau: int| 0 <= tau < total_time ==> row_matches(*st_type, tau, #[trigger] grid@[tau]@),
        flat.deep_view().len() == st_type.spec_valid_clocks() * st_type.spec_atoms_per_valid(),
        def@ == st_type.spec_def_atom_str(),
    ensures
        final(sink)@ == old(sink)@ + values_text(*st_type, flat.deep_view()),
{
    let ghost t = *st_type;
    let ghost toks = flat.deep_view();
    let ghost items = Seq::new(t.spec_clocks(), |tau: int| cycle_text(t, toks, tau));
    let ghost start = sink@;
    sink.push(LBRACKET);
    let mut k: u32 = 0;
    while k < total_time
        invariant
            k <= total_time,
            st_type.wf(),
            st_type.fits(),
            t == *st_type,
            toks == flat.deep_view(),
            total_width == t.spec_atoms_per_valid(),
            total_time == t.spec_clocks(),
            grid@.len() == total_time,
            forall|tau: int| 0 <= tau < total_time ==> row_matches(t, tau, #[trigger] grid@[tau]@),
            toks.len() == t.spec_valid_clocks() * t.spec_atoms_per_valid(),
            def@ == t.spec_def_atom_str(),
            items == Seq::new(t.spec_clocks(), |tau: int| cycle_text(t, toks, tau)),
            sink@ == start + seq![LBRACKET] + joined(items.subrange(0, k as int)),
        decreases total_time - k,
    {
        proof { lemma_joined_step(items, k as int); }
        if k > 0 {
            sink.push(COMMA);
        }
        render_cycle(&grid[k as usize], flat, def, st_type, total_width, Ghost(k as int), sink);
        k = k + 1;
        proof {
            assert(sink@ =~= start + seq![LBRACKET] + joined(items.subrange(0, k as int)));
        }
    }
    sink.push(RBRACKET);
    proof {
        assert(items.subrange(0, total_time as int) =~= items);
        assert(sink@ =~= start + values_text(t, toks));
    }
}

/// Appends the validity stream to `sink`.
fn render_valids(valids: &Vec<bool>, st_type: &Type, total_time: u32, sink: &mut Vec<u8>)
    requires
        total_time == st_type.spec_clocks(),
        valids@.len() == total_time,
        forall|tau: int| 0 <= tau < total_time ==> #[trigger] valids@[tau] == time_valid(*st_type, tau),
    ensures
        final(sink)@ == old(sink)@ + valids_text(*st_type),
{
    let ghost t = *st_type;
    let ghost items = Seq::new(t.spec_clocks(), |tau: int| bool_text(time_valid(t, tau)));
    let ghost start = sink@;
    sink.push(LBRACKET);
    let mut k: u32 = 0;
    while k < total_time
        invariant
            k <= total_time,
            t == *st_type,
            total_time == t.spec_clocks(),
            valids@.len() == total_time,
            forall|tau: int| 0 <= tau < total_time ==> #[trigger] valids@[tau] == time_valid(t, tau),
            items == Seq::new(t.spec_clocks(), |tau: int| bool_text(time_valid(t, tau))),
            sink@ == start + seq![LBRACKET] + joined(items.subrange(0, k as int)),
        decreases total_time - k,
    {
        proof { lemma_joined_step(items, k as int); }
        if k > 0 {
            sink.push(COMMA);
        }
        push_all(sink, &bool_bytes(valids[k as usize]));
        k = k + 1;
        proof {
            assert(sink@ =~= start + seq![LBRACKET] + joined(items.subrange(0, k as int)));
        }
    }
    sink.push(RBRACKET);
    proof {
        assert(items.subrange(0, total_time as int) =~= items);
        assert(sink@ =~= start + valids_text(t));
    }
}

/// Lowers `seq_val` onto `st_type` and writes the values stream to
/// `vals_sink` and the validity stream to `valids_sink`.
///
/// The value is flattened depth-first into one token per atom (or pair of
/// atoms); the type places token `cell_index(t, tau, sigma)` in cycle `tau`,
/// lane `sigma`, of each valid cycle and the type's default token in each
/// lane of an idle cycle. Nothing is written when the value does not match
/// the type.
pub fn convert_seq_val_to_st_val_string(
    seq_val: Value,
    st_type: Type,
    vals_sink: &mut Vec<u8>,
    valids_sink: &mut Vec<u8>,
) -> (r: Result<(), ConvertError>)
    ensures
        match lowering(seq_val, st_type) {
            Ok(toks) => {
                &&& r is Ok
                &&& final(vals_sink)@ == old(vals_sink)@ + values_text(st_type, toks)
                &&& final(valids_sink)@ == old(valids_sink)@ + valids_text(st_type)
            },
            Err(e) => {
                &&& r == Err::<(), ConvertError>(e)
                &&& final(vals_sink)@ == old(vals_sink)@
                &&& final(valids_sink)@ == old(valids_sink)@
            },
        },
{
    if !st_type.is_lowerable() {
        return Err(ConvertError::InvalidType);
    }
    proof {
        lemma_fits_bounds(st_type);
        lemma_positive(st_type);
    }
    let mut flat_val_strs: Vec<Vec<u8>> = Vec::new();
    let flattened = seq_val.convert_to_flat_atom_list(&mut flat_val_strs);
    if let Err(e) = flattened {
        return Err(e);
    }
    assert(flat_val_strs.deep_view() =~= flat_atoms(seq_val)->0);
    let total_width = st_type.atoms_per_valid();
    let total_time = st_type.clocks();
    let valid_time = st_type.valid_clocks();
    let expected = (valid_time * total_width) as usize;
    if flat_val_strs.len() != expected {
        return Err(ConvertError::AtomCount { expected, found: flat_val_strs.len() });
    }
    let (st_vals, st_valids) = convert_seq_idxs_to_vals_to_time_space_vec(&st_type);
    let def_str = st_type.def_atom_str();
    render_values(&st_vals, &flat_val_strs, &def_str, &st_type, total_width, total_time, vals_sink);
    render_valids(&st_valids, &st_type, total_time, valids_sink);
    Ok(())
}

} // verus!
