use hanabi::cards::{color_index, Card, Color};
use hanabi::game::{GameError, GameOptions, GameState, TurnChoice};
use hanabi::knowledge::CardKnowledge;
use hanabi::pile::Pile;
use rand::SeedableRng;

fn seeded(seed: u64) -> rand::rngs::StdRng {
    rand::rngs::StdRng::seed_from_u64(seed)
}

fn new_game(num_players: u32, hand_size: u32, num_hints: u32, num_lives: u32) -> GameState {
    let opts = GameOptions { num_players, hand_size, num_hints, num_lives };
    GameState::new(&opts, &mut seeded(7)).unwrap()
}

fn set_hand(gs: &mut GameState, player: usize, cards: Vec<Card>) {
    let n = cards.len();
    gs.player_states[player].hand = Pile::from(cards);
    let mut slots: Vec<CardKnowledge> = Vec::new();
    for _ in 0..n {
        slots.push(CardKnowledge::new());
    }
    gs.player_states[player].info = Pile::from(slots);
}

fn card(color: Color, value: u32) -> Card {
    Card { color, value }
}

#[test]
fn fresh_game_counters() {
    let gs = new_game(2, 2, 8, 3);
    assert_eq!(gs.board.deck.size(), 46);
    assert_eq!(gs.player_states.len(), 2);
    for p in 0..2 {
        assert_eq!(gs.player_states[p].hand.size(), 2);
        assert_eq!(gs.player_states[p].info.size(), 2);
    }
    assert_eq!(gs.board.fireworks.len(), 5);
    for c in 0..5 {
        assert_eq!(gs.board.fireworks[c].size(), 1);
        assert_eq!(gs.board.fireworks[c].get(0).value, 0);
    }
    assert_eq!(gs.board.discard.size(), 0);
    assert_eq!(gs.board.hints_remaining, 8);
    assert_eq!(gs.board.hints_total, 8);
    assert_eq!(gs.board.lives_remaining, 3);
    assert_eq!(gs.board.lives_total, 3);
    assert_eq!(gs.board.turn, 1);
    assert_eq!(gs.board.player, 0);
    assert_eq!(gs.board.deckless_turns_remaining, 3);
    assert!(!gs.is_over());
    assert_eq!(gs.score(), 0);
}

#[test]
fn construction_rejected_when_hands_exceed_deck() {
    let opts = GameOptions { num_players: 10, hand_size: 6, num_hints: 8, num_lives: 3 };
    let r = GameState::new(&opts, &mut seeded(7));
    assert!(matches!(r, Err(GameError::Construction)));
}

#[test]
fn full_deal_has_exact_deck_composition() {
    // 5 players with 10 cards each drain the whole 50-card deck, so the
    // hands together must hold exactly the full deck: per color three
    // 1s, two 2s, two 3s, two 4s and one 5.
    let gs = new_game(5, 10, 8, 3);
    assert_eq!(gs.board.deck.size(), 0);
    let mut counts = [[0usize; 6]; 5];
    for p in 0..5 {
        assert_eq!(gs.player_states[p].hand.size(), 10);
        for k in 0..10 {
            let c = *gs.player_states[p].hand.get(k);
            counts[color_index(c.color)][c.value as usize] += 1;
        }
    }
    for ci in 0..5 {
        assert_eq!(counts[ci][0], 0);
        assert_eq!(counts[ci][1], 3);
        assert_eq!(counts[ci][2], 2);
        assert_eq!(counts[ci][3], 2);
        assert_eq!(counts[ci][4], 2);
        assert_eq!(counts[ci][5], 1);
    }
}

#[test]
fn different_seeds_give_different_decks() {
    let a = new_game(2, 2, 8, 3);
    let opts = GameOptions { num_players: 2, hand_size: 2, num_hints: 8, num_lives: 3 };
    let b = GameState::new(&opts, &mut seeded(8)).unwrap();
    let mut same = true;
    for i in 0..a.board.deck.size() {
        if a.board.deck.get(i) != b.board.deck.get(i) {
            same = false;
        }
    }
    assert!(!same);
}

#[test]
fn legal_play_on_sentinel_extends_firework() {
    let mut gs = new_game(2, 2, 8, 3);
    set_hand(&mut gs, 0, vec![card(Color::Red, 1), card(Color::Blue, 3)]);
    let r = gs.process_choice(&TurnChoice::Play(0));
    assert!(r.is_ok());
    let red = color_index(Color::Red);
    assert_eq!(gs.board.fireworks[red].size(), 2);
    assert_eq!(gs.score(), 1);
    assert_eq!(gs.board.lives_remaining, 3);
    assert_eq!(gs.board.discard.size(), 0);
    assert_eq!(gs.board.turn, 2);
    assert_eq!(gs.board.player, 1);
    // the played card was replaced from the deck
    assert_eq!(gs.player_states[0].hand.size(), 2);
    assert_eq!(gs.player_states[0].info.size(), 2);
    assert_eq!(gs.board.deck.size(), 45);
}

#[test]
fn illegal_play_discards_and_costs_a_life() {
    let mut gs = new_game(2, 2, 8, 3);
    let red = color_index(Color::Red);
    gs.board.fireworks[red].place(card(Color::Red, 1));
    gs.board.fireworks[red].place(card(Color::Red, 2));
    set_hand(&mut gs, 0, vec![card(Color::Red, 1), card(Color::Blue, 3)]);
    let r = gs.process_choice(&TurnChoice::Play(0));
    assert!(r.is_ok());
    assert_eq!(gs.board.fireworks[red].size(), 3);
    assert_eq!(gs.board.discard.size(), 1);
    assert_eq!(gs.board.lives_remaining, 2);
    assert_eq!(gs.score(), 2);
}

#[test]
fn completing_a_firework_refunds_a_hint() {
    let mut gs = new_game(2, 2, 8, 3);
    assert!(gs.process_choice(&TurnChoice::Hint).is_ok());
    assert_eq!(gs.board.hints_remaining, 7);
    let red = color_index(Color::Red);
    for v in 1..5 {
        gs.board.fireworks[red].place(card(Color::Red, v));
    }
    set_hand(&mut gs, 1, vec![card(Color::Red, 5), card(Color::Blue, 1)]);
    let r = gs.process_choice(&TurnChoice::Play(0));
    assert!(r.is_ok());
    assert_eq!(gs.board.fireworks[red].size(), 6);
    assert_eq!(gs.board.hints_remaining, 8);
    assert_eq!(gs.score(), 5);
}

#[test]
fn discard_refunds_hint_up_to_cap() {
    let mut gs = new_game(2, 2, 8, 3);
    // at the cap the refund does nothing
    assert!(gs.process_choice(&TurnChoice::Discard(0)).is_ok());
    assert_eq!(gs.board.hints_remaining, 8);
    // below the cap it refunds one token
    assert!(gs.process_choice(&TurnChoice::Hint).is_ok());
    assert_eq!(gs.board.hints_remaining, 7);
    assert!(gs.process_choice(&TurnChoice::Discard(0)).is_ok());
    assert_eq!(gs.board.hints_remaining, 8);
}

#[test]
fn hint_without_tokens_is_refused() {
    let mut gs = new_game(2, 2, 1, 3);
    assert!(gs.process_choice(&TurnChoice::Hint).is_ok());
    assert_eq!(gs.board.hints_remaining, 0);
    assert_eq!(gs.board.turn, 2);
    let r = gs.process_choice(&TurnChoice::Hint);
    assert!(matches!(r, Err(GameError::IllegalHint)));
    assert_eq!(gs.board.turn, 2);
    assert_eq!(gs.board.hints_remaining, 0);
}

#[test]
fn out_of_range_index_is_refused() {
    let mut gs = new_game(2, 2, 8, 3);
    let r = gs.process_choice(&TurnChoice::Discard(2));
    assert!(matches!(r, Err(GameError::HandIndexOutOfRange)));
    let r = gs.process_choice(&TurnChoice::Play(9));
    assert!(matches!(r, Err(GameError::HandIndexOutOfRange)));
    assert_eq!(gs.board.turn, 1);
    assert_eq!(gs.board.discard.size(), 0);
}

#[test]
fn emptying_the_deck_starts_the_countdown() {
    let mut gs = new_game(2, 2, 8, 3);
    let mut turns = 0;
    while gs.board.deck.size() > 0 {
        assert!(gs.process_choice(&TurnChoice::Discard(0)).is_ok());
        turns += 1;
    }
    assert_eq!(turns, 46);
    // the turn that emptied the deck already counted one deckless turn
    assert_eq!(gs.board.deckless_turns_remaining, 2);
    assert!(!gs.is_over());
    assert!(gs.process_choice(&TurnChoice::Discard(0)).is_ok());
    assert_eq!(gs.board.deckless_turns_remaining, 1);
    assert!(!gs.is_over());
    assert!(gs.process_choice(&TurnChoice::Discard(0)).is_ok());
    assert_eq!(gs.board.deckless_turns_remaining, 0);
    assert!(gs.is_over());
    // hands shrank once the deck could not replace taken cards
    assert_eq!(gs.player_states[0].hand.size(), 1);
    assert_eq!(gs.player_states[0].info.size(), 1);
}

#[test]
fn processing_a_finished_game_is_refused() {
    let mut gs = new_game(2, 2, 8, 3);
    while !gs.is_over() {
        assert!(gs.process_choice(&TurnChoice::Discard(0)).is_ok());
    }
    let turn = gs.board.turn;
    let r = gs.process_choice(&TurnChoice::Hint);
    assert!(matches!(r, Err(GameError::GameAlreadyOver)));
    assert_eq!(gs.board.turn, turn);
}

#[test]
fn losing_the_last_life_ends_the_game_at_once() {
    let mut gs = new_game(2, 2, 8, 3);
    gs.board.lives_remaining = 1;
    // value 3 on an empty (sentinel-only) firework is illegal
    set_hand(&mut gs, 0, vec![card(Color::Blue, 3), card(Color::Red, 1)]);
    assert!(gs.process_choice(&TurnChoice::Play(0)).is_ok());
    assert_eq!(gs.board.lives_remaining, 0);
    assert!(gs.board.deck.size() > 0);
    assert!(gs.is_over());
}

#[test]
fn get_players_lists_every_seat() {
    let gs = new_game(3, 2, 8, 3);
    assert_eq!(gs.get_players(), vec![0, 1, 2]);
}
