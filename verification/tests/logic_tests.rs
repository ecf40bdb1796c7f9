use tetrs::bot::can_place;
use tetrs::game::IdManager;
use tetrs::game::run_simulator;
use tetrs::logic::bot::heuristic;
use tetrs::logic::game;
use tetrs::logic::id_manager;
use tetrs::logic::state::EMPTY;
use tetrs::logic::state::GameState;

#[test]
fn bot_test_try_place() {
    let mut state = GameState::initial_game_state();

    state.remaining_pieces = vec!['P', 'N', 'F'];

    let p_composite_id = game::create_composite_id(9, 0);

    state.field = vec![
        vec![EMPTY, EMPTY, EMPTY, EMPTY, EMPTY],
        vec![EMPTY, EMPTY, EMPTY, EMPTY, EMPTY],
        vec![EMPTY, EMPTY, EMPTY, EMPTY, EMPTY],
        vec![EMPTY, EMPTY, EMPTY, EMPTY, EMPTY],
        vec![EMPTY, EMPTY, EMPTY, EMPTY, EMPTY],
        vec![EMPTY, EMPTY, EMPTY, EMPTY, EMPTY],
        vec![EMPTY, EMPTY, EMPTY, EMPTY, EMPTY],
        vec![EMPTY, EMPTY, EMPTY, EMPTY, EMPTY],
        vec![EMPTY, EMPTY, EMPTY, EMPTY, EMPTY],
        vec![EMPTY, EMPTY, EMPTY, EMPTY, EMPTY],
        vec![EMPTY, EMPTY, EMPTY, EMPTY, EMPTY],
        vec![EMPTY, EMPTY, EMPTY, EMPTY, EMPTY],
        vec![EMPTY, EMPTY, p_composite_id, EMPTY, EMPTY],
        vec![EMPTY, EMPTY, EMPTY, EMPTY, EMPTY],
        vec![EMPTY, EMPTY, EMPTY, EMPTY, EMPTY],
    ];

    let _x_composite_id = game::create_composite_id(0, 0);
    let _x_piece = vec![vec![0, 1, 0], vec![1, 1, 1], vec![0, 1, 0]];

    let _l_composite_id = game::create_composite_id(8, 0);
    let l_piece = vec![vec![1, 0], vec![1, 0], vec![1, 0], vec![1, 1]];

    println!("result: {}", can_place(&state.field, &l_piece, 8, 1));

    println!("{}", state.text());
}

#[test]
fn bot_test_heuristic() {
    let mut state_a = GameState::initial_game_state();

    state_a.remaining_pieces = vec!['X', 'I', 'Z', 'T', 'U'];

    state_a.field = vec![
        vec![1, 2, 3, 4, EMPTY],
        vec![1, 2, 3, 4, EMPTY],
        vec![1, 2, 3, 4, EMPTY],
        vec![1, 2, 3, 4, EMPTY],
        vec![1, 2, 3, 4, EMPTY],
        vec![1, 2, 3, 4, EMPTY],
        vec![1, 2, 3, 4, EMPTY],
        vec![1, 2, 3, 4, EMPTY],
        vec![EMPTY, EMPTY, EMPTY, EMPTY, EMPTY],
        vec![EMPTY, EMPTY, EMPTY, EMPTY, EMPTY],
        vec![EMPTY, EMPTY, EMPTY, EMPTY, EMPTY],
        vec![EMPTY, EMPTY, EMPTY, EMPTY, EMPTY],
        vec![EMPTY, EMPTY, EMPTY, EMPTY, EMPTY],
        vec![EMPTY, EMPTY, EMPTY, EMPTY, EMPTY],
        vec![EMPTY, EMPTY, EMPTY, EMPTY, EMPTY],
    ];

    let mut state_b = GameState::initial_game_state();

    state_b.remaining_pieces = vec!['X', 'I', 'Z', 'T', 'U'];

    state_b.field = vec![
        vec![EMPTY, EMPTY, EMPTY, EMPTY, EMPTY],
        vec![EMPTY, EMPTY, EMPTY, EMPTY, EMPTY],
        vec![EMPTY, EMPTY, EMPTY, EMPTY, EMPTY],
        vec![EMPTY, EMPTY, EMPTY, EMPTY, EMPTY],
        vec![EMPTY, EMPTY, EMPTY, EMPTY, EMPTY],
        vec![EMPTY, EMPTY, EMPTY, EMPTY, EMPTY],
        vec![EMPTY, EMPTY, EMPTY, EMPTY, EMPTY],
        vec![EMPTY, EMPTY, EMPTY, EMPTY, EMPTY],
        vec![EMPTY, EMPTY, EMPTY, EMPTY, EMPTY],
        vec![EMPTY, EMPTY, EMPTY, EMPTY, EMPTY],
        vec![EMPTY, EMPTY, EMPTY, EMPTY, EMPTY],
        vec![1, 2, 3, 4, EMPTY],
        vec![1, 2, 3, 4, EMPTY],
        vec![1, 2, 3, 4, EMPTY],
        vec![1, 2, 3, 4, EMPTY],
    ];

    let mut id_manager = IdManager::new();

    let heuristic_a = heuristic(&mut state_a, &mut id_manager);
    let heuristic_b = heuristic(&mut state_b, &mut id_manager);

    println!("HEURISTIC A: {}", heuristic_a);

    println!("HEURISTIC B: {}", heuristic_b);

    // heuristic_a should be greater than heuristic_b
    assert!(state_a.field.len() == 15);
    assert!(state_b.field.len() == 15);
    assert!(heuristic_a < heuristic_b);
}

#[test]
fn game_test_gravity() {
    let mut state = GameState::initial_game_state();
    state.remaining_pieces = vec!['X'];

    let mut id_manager = IdManager::new();

    let l_composite_id = game::create_composite_id(8, id_manager.next_unique_id(8));
    let _p_composite_id = game::create_composite_id(9, id_manager.next_unique_id(9));
    let x_composite_id = game::create_composite_id(0, id_manager.next_unique_id(0));

    let field3 = vec![
        vec![EMPTY, EMPTY, EMPTY, EMPTY, EMPTY],
        vec![EMPTY, EMPTY, EMPTY, EMPTY, EMPTY],
        vec![EMPTY, EMPTY, EMPTY, EMPTY, EMPTY],
        vec![EMPTY, EMPTY, EMPTY, EMPTY, EMPTY],
        vec![EMPTY, EMPTY, EMPTY, EMPTY, EMPTY],
        vec![EMPTY, EMPTY, EMPTY, EMPTY, EMPTY],
        vec![EMPTY, EMPTY, EMPTY, EMPTY, EMPTY],
        vec![EMPTY, EMPTY, EMPTY, EMPTY, EMPTY],
        vec![EMPTY, EMPTY, EMPTY, EMPTY, EMPTY],
        vec![EMPTY, EMPTY, EMPTY, EMPTY, EMPTY],
        vec![EMPTY, EMPTY, EMPTY, EMPTY, l_composite_id],
        vec![EMPTY, EMPTY, EMPTY, EMPTY, l_composite_id],
        vec![x_composite_id, x_composite_id, x_composite_id, x_composite_id, l_composite_id],
        vec![EMPTY, x_composite_id, EMPTY, EMPTY, l_composite_id],
        vec![EMPTY, EMPTY, EMPTY, EMPTY, l_composite_id],
    ];

    state.field = field3;

    println!("b4 clear+gravity\n {}", state.text());

    run_simulator(&mut state.field, &mut id_manager);

    println!("after clear+gravity\n {}", state.text());

    assert_eq!(state.field[2][0], EMPTY);
}

#[test]
fn test_clear_rows() {
    let mut state = GameState::initial_game_state();
    state.remaining_pieces = vec!['X'];

    let comp_id1 = game::create_composite_id(9, 0);
    let comp_id2 = game::create_composite_id(11, 1);

    let field = vec![
        vec![EMPTY, EMPTY, EMPTY, EMPTY, EMPTY],
        vec![EMPTY, EMPTY, EMPTY, EMPTY, EMPTY],
        vec![EMPTY, EMPTY, EMPTY, EMPTY, EMPTY],
        vec![EMPTY, EMPTY, EMPTY, EMPTY, EMPTY],
        vec![EMPTY, EMPTY, EMPTY, EMPTY, EMPTY],
        vec![EMPTY, EMPTY, EMPTY, EMPTY, EMPTY],
        vec![EMPTY, EMPTY, EMPTY, EMPTY, EMPTY],
        vec![EMPTY, EMPTY, EMPTY, EMPTY, EMPTY],
        vec![EMPTY, EMPTY, EMPTY, EMPTY, EMPTY],
        vec![EMPTY, EMPTY, EMPTY, EMPTY, EMPTY],
        vec![EMPTY, EMPTY, EMPTY, EMPTY, EMPTY],
        vec![EMPTY, EMPTY, EMPTY, EMPTY, EMPTY],
        vec![comp_id1, EMPTY, EMPTY, EMPTY, EMPTY],
        vec![comp_id1, comp_id2, comp_id2, comp_id2, comp_id2],
        vec![comp_id1, EMPTY, EMPTY, EMPTY, EMPTY],
    ];

    state.field = field;

    println!("b4 clear\n {}", state.text());
    println!("P unique_id: {}", game::get_unique_id(comp_id1));

    run_simulator(&mut state.field, &mut IdManager::new());
    println!("after clear\n {}", state.text());

    assert_eq!(
        tetrs::game::is_connected(&state.field, 12, 0, &game::get_unique_id(comp_id1)),
        false
    );
}

#[test]
fn game_test_create_composite_id() {
    for x in 0..12 {
        for y in 0..4096 {
            let composite_id = game::create_composite_id(x, y);
            assert_eq!(game::get_pent_id(composite_id), x);
            assert_eq!(game::get_unique_id(composite_id), y);
        }
    }
}

#[test]
fn game_test_get_unique_id() {
    let composite_id = game::create_composite_id(1, 2);

    assert_eq!(game::get_pent_id(composite_id), 1);
    assert_eq!(game::get_unique_id(composite_id), 2);
}

#[test]
fn game_test_get_pent_id() {
    // the piece-type half is the top four bits, so 258 decodes to piece 0
    // and 65535 to piece 15 — never to 255
    assert_eq!(game::get_pent_id(0), 0);
    assert_eq!(game::get_pent_id(258), 0);
    assert_eq!(game::get_pent_id(65535), 15);
    assert_ne!(game::get_pent_id(65535), 255);
}

#[test]
fn id_manager_test_create_composite_id() {
    for x in 0..12 {
        for y in 0..4096 {
            let composite_id = id_manager::create_composite_id(&x, &y);
            assert_eq!(id_manager::get_pent_id(composite_id), x);
            assert_eq!(id_manager::get_unique_id(composite_id), y);
        }
    }
}

#[test]
fn id_manager_test_get_unique_id() {
    let composite_id = id_manager::create_composite_id(&1, &2);

    assert_eq!(id_manager::get_pent_id(composite_id), 1);
    assert_eq!(id_manager::get_unique_id(composite_id), 2);
}

#[test]
fn id_manager_test_get_pent_id() {
    // the piece-type half is the top four bits, so 258 decodes to piece 0
    // and 65535 to piece 15 — never to 255
    assert_eq!(id_manager::get_pent_id(0), 0);
    assert_eq!(id_manager::get_pent_id(258), 0);
    assert_eq!(id_manager::get_pent_id(65535), 15);
    assert_ne!(id_manager::get_pent_id(65535), 255);
}
