use tetrs::DEFAULT_LOOKAHEAD_SIZE;
use tetrs::game::EMPTY;
use tetrs::game::IdManager;
use tetrs::game::State;
use tetrs::game::create_composite_id;
use tetrs::game::get_pent_id;
use tetrs::game::get_unique_id;
use tetrs::game::is_connected;
use tetrs::game::update;

#[test]
fn mod_test_gravity() {
    let mut state = State::new(DEFAULT_LOOKAHEAD_SIZE);
    state.remaining_pieces = vec!['X'];

    let mut id_manager = IdManager::default();

    let l_composite_id = create_composite_id(8, id_manager.next_unique_id(8));
    let _p_composite_id = create_composite_id(9, id_manager.next_unique_id(9));
    let x_composite_id = create_composite_id(0, id_manager.next_unique_id(0));

    let field3 = vec![
        vec![EMPTY, EMPTY, EMPTY, EMPTY, EMPTY],
        vec![EMPTY, EMPTY, EMPTY, EMPTY, EMPTY],
        vec![EMPTY, EMPTY, EMPTY, EMPTY, EMPTY],
        vec![EMPTY, EMPTY, EMPTY, EMPTY, EMPTY],
        vec![EMPTY, EMPTY, EMPTY, EMPTY, EMPTY],
        vec![EMPTY, EMPTY, EMPTY, EMPTY, EMPTY],
        vec![EMPTY, EMPTY, EMPTY, EMPTY, EMPTY],
        vec![EMPTY, EMPTY, EMPTY, EMPTY, EMPTY],
        vec![EMPTY, EMPTY, EMPTY, EMPTY, EMPTY],
        vec![EMPTY, EMPTY, EMPTY, EMPTY, EMPTY],
        vec![EMPTY, EMPTY, EMPTY, EMPTY, l_composite_id],
        vec![EMPTY, EMPTY, EMPTY, EMPTY, l_composite_id],
        vec![x_composite_id, x_composite_id, x_composite_id, x_composite_id, l_composite_id],
        vec![EMPTY, x_composite_id, EMPTY, EMPTY, l_composite_id],
        vec![EMPTY, EMPTY, EMPTY, EMPTY, l_composite_id],
    ];

    state.field = field3;

    println!("b4 clear+gravity\n {}", state.text());

    update(&mut state, &mut id_manager, 0, true);

    println!("after clear+gravity\n {}", state.text());

    assert_eq!(state.field[2][0], EMPTY);
}

#[test]
fn test_update() {
    let mut state = State::new(DEFAULT_LOOKAHEAD_SIZE);
    state.remaining_pieces = vec!['X'];

    let comp_id1 = create_composite_id(9, 0);
    let comp_id2 = create_composite_id(11, 1);

    let field = vec![
        vec![EMPTY, EMPTY, EMPTY, EMPTY, EMPTY],
        vec![EMPTY, EMPTY, EMPTY, EMPTY, EMPTY],
        vec![EMPTY, EMPTY, EMPTY, EMPTY, EMPTY],
        vec![EMPTY, EMPTY, EMPTY, EMPTY, EMPTY],
        vec![EMPTY, EMPTY, EMPTY, EMPTY, EMPTY],
        vec![EMPTY, EMPTY, EMPTY, EMPTY, EMPTY],
        vec![EMPTY, EMPTY, EMPTY, EMPTY, EMPTY],
        vec![EMPTY, EMPTY, EMPTY, EMPTY, EMPTY],
        vec![EMPTY, EMPTY, EMPTY, EMPTY, EMPTY],
        vec![EMPTY, EMPTY, EMPTY, EMPTY, EMPTY],
        vec![EMPTY, EMPTY, EMPTY, EMPTY, EMPTY],
        vec![EMPTY, EMPTY, EMPTY, EMPTY, EMPTY],
        vec![comp_id1, EMPTY, EMPTY, EMPTY, EMPTY],
        vec![comp_id1, comp_id2, comp_id2, comp_id2, comp_id2],
        vec![comp_id1, EMPTY, EMPTY, EMPTY, EMPTY],
    ];

    state.field = field;

    println!("b4 clear\n {}", state.text());
    println!("P unique_id: {}", get_unique_id(comp_id1));

    update(&mut state, &mut IdManager::default(), 0, true);
    println!("after clear\n {}", state.text());

    assert_eq!(
        is_connected(&state.field, 12, 0, &get_unique_id(comp_id1)),
        false
    );
}

#[test]
fn mod_test_create_composite_id() {
    for x in 0..12 {
        for y in 0..4096 {
            let composite_id = create_composite_id(x, y);
            assert_eq!(get_pent_id(composite_id), x);
            assert_eq!(get_unique_id(composite_id), y);
        }
    }
}

#[test]
fn mod_test_get_unique_id() {
    let composite_id = create_composite_id(13, 2);

    assert_eq!(get_pent_id(composite_id), 13);
    assert_eq!(get_unique_id(composite_id), 2);
}
