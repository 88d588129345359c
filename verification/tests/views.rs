use hanabi::game::{GameOptions, GameState, Turn, TurnChoice};
use rand::SeedableRng;

fn two_player_game() -> GameState {
    let opts = GameOptions { num_players: 2, hand_size: 2, num_hints: 8, num_lives: 3 };
    let mut rng = rand::rngs::StdRng::seed_from_u64(11);
    GameState::new(&opts, &mut rng).unwrap()
}

#[test]
fn view_hides_own_hand_and_shows_the_rest() {
    let gs = two_player_game();
    let v = gs.get_view(0);
    assert_eq!(v.player, 0);
    // the viewer gets their own knowledge slots, one per hand card
    assert_eq!(v.info.size(), gs.player_states[0].info.size());
    // every other player appears with their full state; the viewer does not
    assert_eq!(v.other_player_states.len(), 1);
    let (other, state) = &v.other_player_states[0];
    assert_eq!(*other, 1);
    assert_eq!(state.hand.size(), gs.player_states[1].hand.size());
    for k in 0..state.hand.size() {
        assert_eq!(state.hand.get(k), gs.player_states[1].hand.get(k));
    }
    assert_eq!(state.info.size(), gs.player_states[1].info.size());
}

#[test]
fn view_copies_the_shared_board() {
    let gs = two_player_game();
    let v = gs.get_view(1);
    assert_eq!(v.player, 1);
    assert_eq!(v.other_player_states.len(), 1);
    assert_eq!(v.other_player_states[0].0, 0);
    assert_eq!(v.board.deck.size(), gs.board.deck.size());
    assert_eq!(v.board.discard.size(), gs.board.discard.size());
    assert_eq!(v.board.turn, gs.board.turn);
    assert_eq!(v.board.player, gs.board.player);
    assert_eq!(v.board.hints_remaining, gs.board.hints_remaining);
    assert_eq!(v.board.lives_remaining, gs.board.lives_remaining);
    for c in 0..5 {
        assert_eq!(v.board.fireworks[c].size(), gs.board.fireworks[c].size());
    }
}

#[test]
fn turn_records_carry_player_and_choice() {
    let record = Turn { player: 1, choice: TurnChoice::Discard(0) };
    assert_eq!(record.player, 1);
    assert!(matches!(record.choice, TurnChoice::Discard(0)));
}
