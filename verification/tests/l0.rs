use jw_guard::kernel::l0::L0Atom;

fn atom_copy<T: L0Atom>(value: T) -> (T, T) {
    (value, value)
}

#[test]
fn primitive_atoms_are_layer_zero_atoms() {
    assert_eq!(atom_copy(7u8), (7, 7));
    assert_eq!(atom_copy('x'), ('x', 'x'));
    assert_eq!(atom_copy(true), (true, true));
    assert_eq!(atom_copy(-3i128), (-3, -3));
}
