use tetrs::bot::can_place;
use tetrs::bot::generate_states;
use tetrs::bot::place_piece;
use tetrs::bot::search;
use tetrs::data::PentominoDB;
use tetrs::game::EMPTY;
use tetrs::game::IdManager;
use tetrs::game::NextShapes;
use tetrs::game::State;
use tetrs::game::copy_field;
use tetrs::game::create_composite_id;
use tetrs::game::get_pent_id;
use tetrs::game::get_unique_id;
use tetrs::game::update;
use tetrs::pentominoes::char_to_id;
use tetrs::pentominoes::load_permutations;

fn empty_field() -> Vec<Vec<u16>> {
    vec![vec![EMPTY; 5]; 15]
}

// A board whose bottom row is fully occupied by a single piece clears that
// row and nothing else: one cleared row, an all-empty board afterwards.
#[test]
fn test_simple_clear() {
    let mut state = State::new(1);
    let tile = create_composite_id(1, 1);
    let mut field = empty_field();
    for col in 0..5 {
        field[14][col] = tile;
    }
    state.field = field;

    let cleared = update(&mut state, &mut IdManager::default(), 0, true);

    assert_eq!(cleared, 1);
    assert_eq!(state.cleared_rows, 1);
    for row in 0..15 {
        for col in 0..5 {
            assert_eq!(state.field[row][col], EMPTY);
        }
    }
}

// Running the simulator on an already-stable board changes nothing and
// reports zero cleared rows.
#[test]
fn test_stable_board_unchanged() {
    let mut state = State::new(1);
    let tile = create_composite_id(9, 9);
    let mut field = empty_field();
    field[14][0] = tile;
    field[14][1] = tile;
    state.field = field.clone();

    let cleared = update(&mut state, &mut IdManager::default(), 0, true);

    assert_eq!(cleared, 0);
    assert_eq!(state.cleared_rows, 0);
    assert_eq!(state.field, field);
}

// After settling, a piece that started in mid-air rests on the floor.
#[test]
fn test_gravity_settles_to_floor() {
    let mut state = State::new(1);
    let tile = create_composite_id(9, 9);
    let mut field = empty_field();
    field[3][1] = tile;
    field[3][2] = tile;
    state.field = field;

    let cleared = update(&mut state, &mut IdManager::default(), 0, true);

    assert_eq!(cleared, 0);
    assert_eq!(state.field[14][1], tile);
    assert_eq!(state.field[14][2], tile);
    assert_eq!(state.field[3][1], EMPTY);
    assert_eq!(state.field[3][2], EMPTY);
}

// A completely filled board with lookahead one: no legal placement exists
// anywhere, and the search reports no solution.
#[test]
fn test_no_legal_placement() {
    let mut state = State::new(1);
    state.remaining_pieces = vec!['X'];
    let tile = create_composite_id(0, 0);
    state.field = vec![vec![tile; 5]; 15];

    let permutations = load_permutations();
    let mut id_manager = IdManager::default();

    let result = search(state, &permutations, &mut id_manager, &1);
    assert!(result.is_none());
}

// An otherwise-empty board, a placement high in the air: every cell of the
// piece would hang over empty cells, so the placement is rejected.
#[test]
fn test_unsupported_rejection() {
    let field = empty_field();
    let x_piece = vec![vec![0, 1, 0], vec![1, 1, 1], vec![0, 1, 0]];

    assert!(!can_place(&field, &x_piece, 5, 1));
    // the same piece resting on the floor is accepted
    assert!(can_place(&field, &x_piece, 12, 1));
}

// A piece sliced by a cleared row: the two surviving cells, no longer
// connected to any cell with their id, are re-labeled with fresh ids of the
// same piece type — and the two fragments get distinct ids.
#[test]
fn test_fragment_reidentification() {
    let mut state = State::new(1);
    let p_tile = create_composite_id(9, 0);
    let f_tile = create_composite_id(11, 1);
    let mut field = empty_field();
    field[12][0] = p_tile;
    field[13][0] = p_tile;
    field[14][0] = p_tile;
    for col in 1..5 {
        field[13][col] = f_tile;
    }
    state.field = field;

    let mut id_manager = IdManager::default();
    let cleared = update(&mut state, &mut id_manager, 0, true);

    assert_eq!(cleared, 1);
    // the two surviving cells settled into the bottom two rows of column 0
    let upper = state.field[13][0];
    let lower = state.field[14][0];
    assert_ne!(upper, EMPTY);
    assert_ne!(lower, EMPTY);
    assert_eq!(get_pent_id(upper), 9);
    assert_eq!(get_pent_id(lower), 9);
    // the fragments carry identities distinct from each other and from the
    // identity the piece was placed with
    assert_ne!(get_unique_id(upper), get_unique_id(lower));
    assert_ne!(get_unique_id(upper), 0);
    assert_ne!(get_unique_id(lower), 0);
}

// A bounded lookahead on a board with room: the search terminates and
// commits a placement of the first queued piece, leaving the queue and the
// clear count of the initial state on the returned snapshot.
#[test]
fn test_decide_places_first_piece() {
    let mut state = State::new(2);
    state.remaining_pieces = vec!['X', 'I'];

    let permutations = load_permutations();
    let mut id_manager = IdManager::default();

    let result = search(state, &permutations, &mut id_manager, &2).unwrap();

    assert_eq!(result.remaining_pieces, vec!['X', 'I']);
    assert_eq!(result.cleared_rows, 0);
    let mut occupied = 0;
    for row in 0..15 {
        for col in 0..5 {
            if result.field[row][col] != EMPTY {
                occupied += 1;
                assert_eq!(get_pent_id(result.field[row][col]), 0);
            }
        }
    }
    assert_eq!(occupied, 5);
}

// The committed placement is legal on the initial board.
#[test]
fn test_decide_placement_was_legal() {
    let mut state = State::new(1);
    state.remaining_pieces = vec!['L'];

    let permutations = load_permutations();
    let mut id_manager = IdManager::default();

    let result = search(state, &permutations, &mut id_manager, &1).unwrap();

    // exactly one L pentomino stands on the board
    let mut occupied = 0;
    for row in 0..15 {
        for col in 0..5 {
            if result.field[row][col] != EMPTY {
                occupied += 1;
                assert_eq!(get_pent_id(result.field[row][col]), 8);
            }
        }
    }
    assert_eq!(occupied, 5);
}

#[test]
fn test_generate_states_counts_placements() {
    let mut parent = State::new(1);
    parent.remaining_pieces = vec!['I'];
    let permutations = load_permutations();
    let mut id_manager = IdManager::default();

    let children = generate_states(&parent, 0, 'I', &permutations, &mut id_manager, true);

    // on an empty board only placements resting on the floor are legal:
    // the vertical bar in each of the 5 columns, the horizontal bar once
    assert_eq!(children.len(), 6);
}

#[test]
fn test_place_piece_stamps_footprint() {
    let field = empty_field();
    let l_piece = vec![vec![1, 0], vec![1, 0], vec![1, 0], vec![1, 1]];
    let tile = create_composite_id(8, 8);

    let placed = place_piece(copy_field(&field), &l_piece, tile, 11, 3);

    assert_eq!(placed[11][3], tile);
    assert_eq!(placed[12][3], tile);
    assert_eq!(placed[13][3], tile);
    assert_eq!(placed[14][3], tile);
    assert_eq!(placed[14][4], tile);
    assert_eq!(placed[11][4], EMPTY);
    assert_eq!(placed[10][3], EMPTY);
}

#[test]
fn test_char_to_id_alphabet() {
    assert_eq!(char_to_id('X'), 0);
    assert_eq!(char_to_id('I'), 1);
    assert_eq!(char_to_id('Z'), 2);
    assert_eq!(char_to_id('T'), 3);
    assert_eq!(char_to_id('U'), 4);
    assert_eq!(char_to_id('V'), 5);
    assert_eq!(char_to_id('W'), 6);
    assert_eq!(char_to_id('Y'), 7);
    assert_eq!(char_to_id('L'), 8);
    assert_eq!(char_to_id('P'), 9);
    assert_eq!(char_to_id('N'), 10);
    assert_eq!(char_to_id('F'), 11);
    assert_eq!(char_to_id('Q'), 255);
}

// Every catalog variant is a pentomino: five set cells, tight bounding box.
#[test]
fn test_catalog_shapes() {
    let permutations = load_permutations();
    assert_eq!(permutations.len(), 12);
    assert_eq!(permutations[0].len(), 1); // X
    assert_eq!(permutations[1].len(), 2); // I
    assert_eq!(permutations[11].len(), 8); // F
    let total: usize = permutations.iter().map(|v| v.len()).sum();
    assert_eq!(total, 63);
    for variants in &permutations {
        assert!(!variants.is_empty());
        for m in variants {
            let cells: u32 = m.iter().flatten().map(|&x| x as u32).sum();
            assert_eq!(cells, 5);
        }
    }
}

#[test]
fn test_pentomino_db_matches_catalog() {
    let db = PentominoDB::new();
    assert_eq!(db.data, load_permutations());
}

// The identity allocator hands out ids congruent to the piece type modulo
// twelve, lowest first, and never repeats one until the pool resets.
#[test]
fn test_next_unique_id_progression() {
    let mut id_manager = IdManager::default();
    assert_eq!(id_manager.next_unique_id(3), 3);
    assert_eq!(id_manager.next_unique_id(3), 15);
    assert_eq!(id_manager.next_unique_id(3), 27);
    assert_eq!(id_manager.next_unique_id(5), 5);
}

#[test]
fn test_logic_next_unique_id_progression() {
    let mut used_ids = vec![false; 4096];
    assert_eq!(tetrs::logic::id_manager::next_unique_id(&mut used_ids, &7), 7);
    assert_eq!(tetrs::logic::id_manager::next_unique_id(&mut used_ids, &7), 19);
    assert!(used_ids[7] && used_ids[19]);
    // exhaust the rest of class 7: the table resets and retries
    for _ in 0..339 {
        tetrs::logic::id_manager::next_unique_id(&mut used_ids, &7);
    }
    assert_eq!(tetrs::logic::id_manager::next_unique_id(&mut used_ids, &7), 7);
    assert!(used_ids[7]);
    assert!(!used_ids[19]);
}

// The bag supplier deals every letter once before repeating: a window as
// long as the alphabet holds all twelve distinct pieces.
#[test]
fn test_next_shapes_deals_full_bag() {
    let mut next_up = NextShapes::new(12);
    let stack = next_up.get_next_stack();
    assert_eq!(stack.len(), 12);
    let mut seen: Vec<char> = Vec::new();
    for c in &stack {
        assert!("XIZTUVWYLPNF".contains(*c));
        assert!(!seen.contains(c));
        seen.push(*c);
    }
}

// The window slides by one piece per request.
#[test]
fn test_next_shapes_window_slides() {
    let mut next_up = NextShapes::new(5);
    let first = next_up.get_next_stack();
    let second = next_up.get_next_stack();
    assert_eq!(first.len(), 5);
    assert_eq!(second.len(), 5);
    for i in 0..4 {
        assert_eq!(second[i], first[i + 1]);
    }
}

// One full turn through the session: a piece is committed and then settled.
#[test]
fn test_app_turn() {
    let mut app = tetrs::app::App::new(tetrs::DEFAULT_LOOKAHEAD_SIZE);
    let committed = app.bot_search();
    assert!(committed.is_some());
    // the committed board holds exactly the first piece, not yet settled
    let mut occupied = 0;
    for row in 0..15 {
        for col in 0..5 {
            if app.game_state.field[row][col] != EMPTY {
                occupied += 1;
            }
        }
    }
    assert_eq!(occupied, 5);
    app.prepare_frames();
    assert!(app.frame_to_draw().is_some());
}

// The re-identification step restores local identity soundness: two cells
// that share an instance id without touching each other are both stamped
// with fresh, distinct ids of their piece type.
#[test]
fn test_relabel_restores_identity() {
    let tile = create_composite_id(9, 9);
    let mut field = empty_field();
    field[14][0] = tile;
    field[14][2] = tile;

    let mut id_manager = IdManager::default();
    id_manager.next_unique_id(9); // marks id 9, the one the board carries
    let mut frames = std::collections::VecDeque::new();
    let cleared = tetrs::game::clear_and_relabel(&mut field, &mut id_manager, &mut frames, false);

    assert_eq!(cleared, 0);
    let left = field[14][0];
    let right = field[14][2];
    assert_eq!(get_pent_id(left), 9);
    assert_eq!(get_pent_id(right), 9);
    assert_ne!(get_unique_id(left), 9);
    assert_ne!(get_unique_id(right), 9);
    assert_ne!(get_unique_id(left), get_unique_id(right));
}

// A placement is legal as soon as one cell of the piece finds support: this
// sideways U rests its whole left column on a block while both right-column
// cells overhang empty air, and it is accepted.
#[test]
fn test_supported_overhang_accepted() {
    let mut field = empty_field();
    field[13][0] = create_composite_id(3, 3);
    let u_piece = vec![vec![1, 1], vec![1, 0], vec![1, 1]];

    assert!(can_place(&field, &u_piece, 10, 0));
    // one column over, nothing carries any cell: rejected
    assert!(!can_place(&field, &u_piece, 10, 2));
}

// Exhausting a residue class resets the pool and retries: the piece type's
// own id comes back, marked used, so the next draw moves on past it.
#[test]
fn test_id_pool_reset() {
    let mut id_manager = IdManager::default();
    for k in 0..342 {
        assert_eq!(id_manager.next_unique_id(0), 12 * k);
    }
    // class 0 is exhausted: the pool resets and hands out id 0 again
    assert_eq!(id_manager.next_unique_id(0), 0);
    assert_eq!(id_manager.next_unique_id(0), 12);
}
