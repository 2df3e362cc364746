use game_of_life::Cell;

#[test]
fn cell_states_are_distinct() {
    assert_ne!(Cell::Dead, Cell::Alive);
    assert_eq!(Cell::Alive, Cell::Alive);
}

#[test]
fn cell_bit_encoding() {
    assert_eq!(Cell::Alive.as_bit(), true);
    assert_eq!(Cell::Dead.as_bit(), false);
}
