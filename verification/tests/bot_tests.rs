use tetrs::DEFAULT_LOOKAHEAD_SIZE;
use tetrs::bot::can_place;
use tetrs::bot::heuristic::apply;
use tetrs::game::EMPTY;
use tetrs::game::IdManager;
use tetrs::game::State;
use tetrs::game::create_composite_id;

#[test]
fn mod_test_try_place() {
    let mut state = State::new(DEFAULT_LOOKAHEAD_SIZE);

    state.remaining_pieces = vec!['P', 'N', 'F'];

    let p_composite_id = create_composite_id(9, 0);

    state.field = vec![
        vec![EMPTY, EMPTY, EMPTY, EMPTY, EMPTY],
        vec![EMPTY, EMPTY, EMPTY, EMPTY, EMPTY],
        vec![EMPTY, EMPTY, EMPTY, EMPTY, EMPTY],
        vec![EMPTY, EMPTY, EMPTY, EMPTY, EMPTY],
        vec![EMPTY, EMPTY, EMPTY, EMPTY, EMPTY],
        vec![EMPTY, EMPTY, EMPTY, EMPTY, EMPTY],
        vec![EMPTY, EMPTY, EMPTY, EMPTY, EMPTY],
        vec![EMPTY, EMPTY, EMPTY, EMPTY, EMPTY],
        vec![EMPTY, EMPTY, EMPTY, EMPTY, EMPTY],
        vec![EMPTY, EMPTY, EMPTY, EMPTY, EMPTY],
        vec![EMPTY, EMPTY, EMPTY, EMPTY, EMPTY],
        vec![EMPTY, EMPTY, EMPTY, EMPTY, EMPTY],
        vec![EMPTY, EMPTY, p_composite_id, EMPTY, EMPTY],
        vec![EMPTY, EMPTY, EMPTY, EMPTY, EMPTY],
        vec![EMPTY, EMPTY, EMPTY, EMPTY, EMPTY],
    ];

    let _x_composite_id = create_composite_id(0, 0);
    let _x_piece = vec![vec![0, 1, 0], vec![1, 1, 1], vec![0, 1, 0]];

    let _l_composite_id = create_composite_id(8, 0);
    let l_piece = vec![vec![1, 0], vec![1, 0], vec![1, 0], vec![1, 1]];

    println!("result: {}", can_place(&state.field, &l_piece, 8, 1));

    println!("{}", state.text());
}

#[test]
fn mod_test_heuristic() {
    let mut state_a = State::new(DEFAULT_LOOKAHEAD_SIZE);

    state_a.remaining_pieces = vec!['X', 'I', 'Z', 'T', 'U'];

    state_a.field = vec![
        vec![1, 2, 3, 4, EMPTY],
        vec![1, 2, 3, 4, EMPTY],
        vec![1, 2, 3, 4, EMPTY],
        vec![1, 2, 3, 4, EMPTY],
        vec![1, 2, 3, 4, EMPTY],
        vec![1, 2, 3, 4, EMPTY],
        vec![1, 2, 3, 4, EMPTY],
        vec![1, 2, 3, 4, EMPTY],
        vec![EMPTY, EMPTY, EMPTY, EMPTY, EMPTY],
        vec![EMPTY, EMPTY, EMPTY, EMPTY, EMPTY],
        vec![EMPTY, EMPTY, EMPTY, EMPTY, EMPTY],
        vec![EMPTY, EMPTY, EMPTY, EMPTY, EMPTY],
        vec![EMPTY, EMPTY, EMPTY, EMPTY, EMPTY],
        vec![EMPTY, EMPTY, EMPTY, EMPTY, EMPTY],
        vec![EMPTY, EMPTY, EMPTY, EMPTY, EMPTY],
    ];

    let mut state_b = State::new(DEFAULT_LOOKAHEAD_SIZE);

    state_b.remaining_pieces = vec!['X', 'I', 'Z', 'T', 'U'];

    state_b.field = vec![
        vec![EMPTY, EMPTY, EMPTY, EMPTY, EMPTY],
        vec![EMPTY, EMPTY, EMPTY, EMPTY, EMPTY],
        vec![EMPTY, EMPTY, EMPTY, EMPTY, EMPTY],
        vec![EMPTY, EMPTY, EMPTY, EMPTY, EMPTY],
        vec![EMPTY, EMPTY, EMPTY, EMPTY, EMPTY],
        vec![EMPTY, EMPTY, EMPTY, EMPTY, EMPTY],
        vec![EMPTY, EMPTY, EMPTY, EMPTY, EMPTY],
        vec![EMPTY, EMPTY, EMPTY, EMPTY, EMPTY],
        vec![EMPTY, EMPTY, EMPTY, EMPTY, EMPTY],
        vec![EMPTY, EMPTY, EMPTY, EMPTY, EMPTY],
        vec![EMPTY, EMPTY, EMPTY, EMPTY, EMPTY],
        vec![1, 2, 3, 4, EMPTY],
        vec![1, 2, 3, 4, EMPTY],
        vec![1, 2, 3, 4, EMPTY],
        vec![1, 2, 3, 4, EMPTY],
    ];

    let mut id_manager = IdManager::default();

    let heuristic_a = apply(&mut state_a, &mut id_manager);
    let heuristic_b = apply(&mut state_b, &mut id_manager);

    println!("HEURISTIC A: {}", heuristic_a);

    println!("HEURISTIC B: {}", heuristic_b);

    // heuristic_a should be greater than heuristic_b
    assert!(state_a.field.len() == 15);
    assert!(state_b.field.len() == 15);
    assert!(heuristic_a < heuristic_b);
}
