use aetherling::space_time::types::Type;

fn sseq(n: u32, t: Type) -> Type {
    Type::SSeq { n, elem_type: Box::from(t) }
}

fn tseq(n: u32, i: u32, t: Type) -> Type {
    Type::TSeq { n, i, elem_type: Box::from(t) }
}

#[test]
fn bit_size() {
    assert_eq!(Type::Bit.size(), 1);
    assert_eq!(Type::Unit.size(), 0);
    assert_eq!(Type::UInt16.size(), 16);
}

#[test]
fn sizes_of_containers() {
    let pair = Type::ATuple { left: Box::from(Type::Int8), right: Box::from(Type::Int32) };
    assert_eq!(pair.size(), 40);
    assert_eq!(sseq(3, Type::UInt8).size(), 24);
    assert_eq!(Type::STuple { n: 2, elem_type: Box::from(Type::Bit) }.size(), 2);
    assert_eq!(tseq(5, 7, Type::Int16).size(), 16);
}

#[test]
fn sseq_atoms_per_valid() {
    assert_eq!(sseq(3, Type::Bit).atoms_per_valid(), 3);
    assert_eq!(tseq(4, 1, sseq(3, Type::Bit)).atoms_per_valid(), 3);
    let pair = Type::ATuple { left: Box::from(Type::Int8), right: Box::from(Type::Int32) };
    assert_eq!(pair.atoms_per_valid(), 1);
}

#[test]
fn tseq_clocks() {
    assert_eq!(tseq(4, 2, Type::UInt8).clocks(), 6);
    assert_eq!(tseq(4, 2, Type::UInt8).valid_clocks(), 4);
    assert_eq!(tseq(3, 1, tseq(2, 2, Type::Bit)).clocks(), 16);
    assert_eq!(tseq(3, 1, tseq(2, 2, Type::Bit)).valid_clocks(), 6);
}

#[test]
fn spatial_containers_keep_cycles() {
    let inner = tseq(2, 1, Type::Int32);
    assert_eq!(sseq(5, tseq(2, 1, Type::Int32)).clocks(), inner.clocks());
    assert_eq!(sseq(5, tseq(2, 1, Type::Int32)).valid_clocks(), inner.valid_clocks());
    assert_eq!(sseq(5, tseq(2, 1, Type::Int32)).atoms_per_valid(), 5 * inner.atoms_per_valid());
}

#[test]
fn clocks_never_below_valid_clocks() {
    for t in [Type::Bit, tseq(3, 0, Type::Int8), tseq(3, 2, sseq(2, Type::Int8)), sseq(2, tseq(1, 4, Type::Bit))] {
        assert!(t.clocks() >= t.valid_clocks());
    }
    assert_eq!(tseq(3, 0, sseq(2, Type::Int8)).clocks(), tseq(3, 0, sseq(2, Type::Int8)).valid_clocks());
}

#[test]
fn default_tokens() {
    assert_eq!(Type::Unit.def_atom_str(), b"()".to_vec());
    assert_eq!(Type::Bit.def_atom_str(), b"False".to_vec());
    assert_eq!(tseq(2, 1, Type::Int16).def_atom_str(), b"0".to_vec());
    let pair = Type::ATuple { left: Box::from(Type::UInt8), right: Box::from(Type::Bit) };
    assert_eq!(sseq(2, pair).def_atom_str(), b"[0,False]".to_vec());
}

#[test]
fn lowerable_types() {
    assert!(tseq(3, 2, sseq(2, Type::Int8)).is_lowerable());
    assert!(!sseq(0, Type::Int8).is_lowerable());
    assert!(!tseq(1, 0, Type::STuple { n: 0, elem_type: Box::from(Type::Bit) }).is_lowerable());
    assert!(!tseq(65536, 0, sseq(65536, Type::Bit)).is_lowerable());
    assert!(tseq(65535, 0, sseq(65537, Type::Bit)).is_lowerable());
}
