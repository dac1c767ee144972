use chinchon::cards::{create_resources, Mazo};
use chinchon::game::{start_position, App, Cell, GameResult, Key, Position, CELL_EMPTY, CELL_X};

fn sorted_cards(app: &App) -> Vec<u8> {
    let mut all = Vec::new();
    all.extend_from_slice(&app.hidden_cards);
    all.extend_from_slice(&app.visible_cards);
    all.extend_from_slice(&app.player1_cards);
    all.extend_from_slice(&app.player2_cards);
    all.sort();
    all
}

fn dealt_app() -> App {
    let mut app = App::new();
    app.deal();
    app.turn_num = 1;
    app
}

#[test]
fn new_round_is_fresh() {
    let app = App::new();
    assert_eq!(app.hidden_cards, (0..50).collect::<Vec<u8>>());
    assert!(app.visible_cards.is_empty());
    assert!(app.player1_cards.is_empty());
    assert!(app.player2_cards.is_empty());
    assert_eq!(app.cursor_position, Position(1, 1));
    assert_eq!(app.cursor_position, start_position());
    assert_eq!(app.board, [CELL_EMPTY; 9]);
    assert_eq!(app.turn_num, 0);
    assert_eq!(app.result, GameResult::Unknown);
    assert!(!app.exit);
}

#[test]
fn reset_starts_over_and_keeps_exit() {
    let mut app = dealt_app();
    app.set(0, 0, CELL_X);
    app.cursor_position = Position(5, 2);
    app.result = GameResult::Draw;
    app.exit = true;
    app.reset();
    let fresh = App::new();
    assert_eq!(app.hidden_cards, fresh.hidden_cards);
    assert!(app.visible_cards.is_empty());
    assert!(app.player1_cards.is_empty());
    assert!(app.player2_cards.is_empty());
    assert_eq!(app.cursor_position, Position(1, 1));
    assert_eq!(app.board, [CELL_EMPTY; 9]);
    assert_eq!(app.turn_num, 0);
    assert_eq!(app.result, GameResult::Unknown);
    assert!(app.exit);
}

#[test]
fn deal_from_the_top() {
    let mut app = App::new();
    let updates = app.deal();
    assert_eq!(app.player1_cards, vec![49, 47, 45, 43, 41, 39, 37]);
    assert_eq!(app.player2_cards, vec![48, 46, 44, 42, 40, 38, 36]);
    assert_eq!(app.visible_cards, vec![35]);
    assert_eq!(app.hidden_cards, (0..35).collect::<Vec<u8>>());
    let mut expected = Vec::new();
    for i in 0..7usize {
        expected.push((Cell::ResourceId(49 - 2 * i as u16), Position(i, 2)));
        expected.push((Cell::ResourceId(48 - 2 * i as u16), Position(i, 0)));
    }
    expected.push((Cell::ResourceId(35), Position(1, 1)));
    assert_eq!(updates, expected);
    assert_eq!(app.turn_num, 0);
}

#[test]
fn deal_from_a_short_pile() {
    let mut app = App::new();
    app.hidden_cards = vec![3];
    app.player2_cards = vec![9];
    let updates = app.deal();
    assert_eq!(app.player1_cards, vec![3]);
    assert_eq!(app.player2_cards, vec![9]);
    assert!(app.hidden_cards.is_empty());
    assert!(app.visible_cards.is_empty());
    assert_eq!(updates.len(), 15);
    assert_eq!(updates[0], (Cell::ResourceId(3), Position(0, 2)));
    assert_eq!(updates[1], (Cell::Empty, Position(0, 0)));
    assert_eq!(updates[2], (Cell::Empty, Position(0, 2)));
    assert_eq!(updates[14], (Cell::Empty, Position(1, 1)));
}

#[test]
fn dar_cartas_deals_a_shuffled_pile() {
    let mut app = App::new();
    let updates = app.dar_cartas();
    assert_eq!(app.player1_cards.len(), 7);
    assert_eq!(app.player2_cards.len(), 7);
    assert_eq!(app.visible_cards.len(), 1);
    assert_eq!(app.hidden_cards.len(), 35);
    assert_eq!(sorted_cards(&app), (0..50).collect::<Vec<u8>>());
    assert_eq!(updates.len(), 15);
    assert_eq!(updates[0], (Cell::ResourceId(app.player1_cards[0] as u16), Position(0, 2)));
    assert_eq!(updates[13], (Cell::ResourceId(app.player2_cards[6] as u16), Position(6, 0)));
    assert_eq!(updates[14], (Cell::ResourceId(app.visible_cards[0] as u16), Position(1, 1)));
}

#[test]
fn first_turn_deals() {
    let mut app = App::new();
    let updates = app.process_user_turn().unwrap();
    assert_eq!(app.turn_num, 1);
    assert_eq!(updates.len(), 15);
    assert_eq!(app.player1_cards.len(), 7);
    assert_eq!(app.board, [CELL_EMPTY; 9]);
    assert_eq!(sorted_cards(&app), (0..50).collect::<Vec<u8>>());
}

#[test]
fn turn_draws_from_the_face_down_pile() {
    let mut app = dealt_app();
    app.cursor_position = Position(0, 1);
    let updates = app.process_user_turn().unwrap();
    assert_eq!(app.turn_num, 2);
    assert_eq!(app.get(0, 1), CELL_X);
    assert_eq!(app.player1_cards, vec![49, 47, 45, 43, 41, 39, 37, 34]);
    assert_eq!(app.hidden_cards, (0..34).collect::<Vec<u8>>());
    assert_eq!(updates, vec![(Cell::ResourceId(34), Position(7, 2))]);
}

#[test]
fn turn_draws_from_the_face_up_pile() {
    let mut app = dealt_app();
    app.cursor_position = Position(1, 1);
    let updates = app.process_user_turn().unwrap();
    assert_eq!(app.get(1, 1), CELL_X);
    assert_eq!(app.player1_cards.last(), Some(&35));
    assert!(app.visible_cards.is_empty());
    assert_eq!(updates, vec![(Cell::ResourceId(35), Position(7, 2))]);
}

#[test]
fn turn_on_a_taken_cell_does_nothing() {
    let mut app = dealt_app();
    app.cursor_position = Position(0, 1);
    app.process_user_turn();
    let hand = app.player1_cards.clone();
    assert!(app.process_user_turn().is_none());
    assert_eq!(app.turn_num, 2);
    assert_eq!(app.player1_cards, hand);
}

#[test]
fn turn_elsewhere_marks_without_drawing() {
    let mut app = dealt_app();
    app.cursor_position = Position(2, 2);
    let updates = app.process_user_turn().unwrap();
    assert!(updates.is_empty());
    assert_eq!(app.get(2, 2), CELL_X);
    assert_eq!(app.player1_cards.len(), 7);
    assert_eq!(app.turn_num, 2);
}

#[test]
fn turn_from_an_empty_pile_shows_an_empty_cell() {
    let mut app = dealt_app();
    app.visible_cards.clear();
    app.cursor_position = Position(1, 1);
    let updates = app.process_user_turn().unwrap();
    assert_eq!(updates, vec![(Cell::Empty, Position(6, 2))]);
    assert_eq!(app.player1_cards.len(), 7);
}

#[test]
fn key_q_stops_and_asks_to_leave() {
    let mut app = App::new();
    let resp = app.handle_key(Key::Char('q'));
    assert!(resp.stop);
    assert!(resp.updates.is_none());
    assert!(app.exit);
}

#[test]
fn key_r_stops_only_with_a_result() {
    let mut app = App::new();
    let resp = app.handle_key(Key::Char('r'));
    assert!(!resp.stop);
    assert!(resp.updates.is_none());
    app.result = GameResult::HumanWin;
    let resp = app.handle_key(Key::Char('r'));
    assert!(resp.stop);
    assert!(!app.exit);
}

#[test]
fn key_j_plays_the_turn() {
    let mut app = App::new();
    let resp = app.handle_key(Key::Char('j'));
    assert!(!resp.stop);
    assert_eq!(resp.updates.unwrap().len(), 15);
    assert_eq!(app.turn_num, 1);
}

#[test]
fn key_o_discards_the_card_under_the_cursor() {
    let mut app = dealt_app();
    app.cursor_position = Position(2, 2);
    let resp = app.handle_key(Key::Char('o'));
    assert!(!resp.stop);
    let updates = resp.updates.unwrap();
    assert_eq!(app.player1_cards, vec![49, 47, 43, 41, 39, 37]);
    assert_eq!(app.visible_cards, vec![35, 45]);
    assert_eq!(updates.len(), 9);
    assert_eq!(updates[0], (Cell::ResourceId(45), Position(1, 1)));
    assert_eq!(updates[1], (Cell::ResourceId(49), Position(0, 2)));
    assert_eq!(updates[3], (Cell::ResourceId(43), Position(2, 2)));
    assert_eq!(updates[6], (Cell::ResourceId(37), Position(5, 2)));
    assert_eq!(updates[7], (Cell::Empty, Position(6, 2)));
    assert_eq!(updates[8], (Cell::Empty, Position(7, 2)));
    assert_eq!(sorted_cards(&app), (0..50).collect::<Vec<u8>>());
}

#[test]
fn key_o_past_the_hand_discards_nothing() {
    let mut app = dealt_app();
    app.cursor_position = Position(7, 2);
    let updates = app.handle_key(Key::Char('o')).updates.unwrap();
    assert_eq!(app.player1_cards.len(), 7);
    assert_eq!(app.visible_cards, vec![35]);
    assert_eq!(updates[0], (Cell::Empty, Position(1, 1)));
}

#[test]
fn key_o_off_the_hand_row_does_nothing() {
    let mut app = dealt_app();
    app.cursor_position = Position(2, 1);
    let resp = app.handle_key(Key::Char('o'));
    assert!(!resp.stop);
    assert!(resp.updates.is_none());
    assert_eq!(app.player1_cards.len(), 7);
}

#[test]
fn other_keys_do_nothing() {
    let mut app = App::new();
    let resp = app.handle_key(Key::Char('x'));
    assert!(!resp.stop && resp.updates.is_none());
    let resp = app.handle_key(Key::Other);
    assert!(!resp.stop && resp.updates.is_none());
    assert!(!app.exit);
    assert_eq!(app.turn_num, 0);
}

#[test]
fn cursor_moved_moves_the_cursor() {
    let mut app = App::new();
    app.cursor_moved(Position(4, 2));
    assert_eq!(app.cursor_position, Position(4, 2));
}

#[test]
fn make_turn_changes_nothing() {
    let mut app = dealt_app();
    let mut updates = vec![(Cell::Empty, Position(0, 0))];
    app.make_turn(&mut updates);
    assert_eq!(updates, vec![(Cell::Empty, Position(0, 0))]);
    assert_eq!(app.board, [CELL_EMPTY; 9]);
    assert_eq!(app.player1_cards.len(), 7);
}

#[test]
fn card_ids_name_their_pictures() {
    let mazo = Mazo::new();
    let res = create_resources(&mazo);
    let mut app = App::new();
    let updates = app.deal();
    for (cell, _) in updates {
        if let Cell::ResourceId(id) = cell {
            assert_eq!(res[&id], mazo.cartas[id as usize].str_visual);
        }
    }
}

#[test]
fn can_play_turn_checks_the_cursor_and_the_piles() {
    let mut app = App::new();
    assert!(app.can_play_turn());
    app.hidden_cards.clear();
    assert!(!app.can_play_turn());
    let mut app = dealt_app();
    app.cursor_position = Position(7, 2);
    assert!(!app.can_play_turn());
    app.cursor_position = Position(1, 1);
    assert!(app.can_play_turn());
    app.visible_cards.clear();
    app.player1_cards.clear();
    assert!(!app.can_play_turn());
    app.turn_num = 255;
    app.cursor_position = Position(2, 2);
    assert!(!app.can_play_turn());
}

#[test]
fn dar_cartas_changes_the_order() {
    // Dealing the pile as it lies gives these hands; after a shuffle of fifty cards they come
    // out the same only with a negligible chance.
    let mut app = App::new();
    app.dar_cartas();
    let unshuffled = (
        vec![49u8, 47, 45, 43, 41, 39, 37],
        vec![48u8, 46, 44, 42, 40, 38, 36],
        vec![35u8],
    );
    assert_ne!(
        (app.player1_cards.clone(), app.player2_cards.clone(), app.visible_cards.clone()),
        unshuffled
    );
}

#[test]
fn turn_on_a_taken_cell_at_the_last_turn_count_does_nothing() {
    let mut app = dealt_app();
    app.set(0, 0, CELL_X);
    app.turn_num = 255;
    app.cursor_position = Position(0, 0);
    assert!(app.can_play_turn());
    assert!(app.process_user_turn().is_none());
    assert_eq!(app.turn_num, 255);
    let resp = app.handle_key(Key::Char('j'));
    assert!(!resp.stop && resp.updates.is_none());
    assert_eq!(app.turn_num, 255);
    assert_eq!(app.player1_cards.len(), 7);
    assert_eq!(sorted_cards(&app), (0..50).collect::<Vec<u8>>());
}
