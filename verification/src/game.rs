use vstd::prelude::*;
use vstd::arithmetic::div_mod::lemma_add_mod_noop;
use vstd::arithmetic::div_mod::lemma_mod_division_less_than_divisor;
use vstd::multiset::Multiset;
use vstd::multiset::group_multiset_axioms;
use vstd::seq_lib::group_to_multiset_ensures;
use crate::cards::{
    Card, Color, Value, FINAL_VALUE, valid_card, color_index, color_index_spec, color_at,
    color_at_spec, full_deck, lemma_full_deck_valid,
};
use crate::knowledge::CardKnowledge;
use crate::pile::Pile;

verus! {

/// A pile of cards.
pub type Cards = Pile<Card>;

/// A pile of common-knowledge slots, kept parallel to a hand.
pub type CardsInfo = Pile<CardKnowledge>;

/// A player, identified by their seat index.
pub type Player = u32;

/// The number of successfully played cards.
pub type Score = u32;

/// The two kinds of hint a player may give.
#[derive(Clone, Copy, PartialEq, Eq, Structural, Debug)]
pub enum Hint {
    Color,
    Value,
}

/// The choice a player makes on their turn.
#[derive(Clone, Copy, PartialEq, Eq, Structural, Debug)]
pub enum TurnChoice {
    Hint,
    Discard(usize),
    Play(usize),
}

/// A record of one taken turn, for the driver's history keeping.
#[derive(Clone, Copy, PartialEq, Eq, Structural, Debug)]
pub struct Turn {
    pub player: Player,
    pub choice: TurnChoice,
}

/// The configuration a game is built from.
#[derive(Clone, Copy, PartialEq, Eq, Structural, Debug)]
pub struct GameOptions {
    pub num_players: u32,
    pub hand_size: u32,
    /// When it hits 0, nobody can hint until a token is refunded.
    pub num_hints: u32,
    /// When it hits 0, the game is lost.
    pub num_lives: u32,
}

/// Typed failures surfaced at the engine's boundary.
#[derive(Clone, Copy, PartialEq, Eq, Structural, Debug)]
pub enum GameError {
    /// The requested hands do not fit in the 50-card deck.
    Construction,
    /// A hint was requested with no hint tokens left.
    IllegalHint,
    /// A discard or play index outside the acting player's hand.
    HandIndexOutOfRange,
    /// A mutation was attempted after the game ended.
    GameAlreadyOver,
}

/// One player's full state: their hand, and the parallel pile of
/// common-knowledge slots, one slot per card.
pub struct PlayerState {
    pub hand: Cards,
    pub info: CardsInfo,
}

impl PlayerState {
    /// Every card has exactly one knowledge slot, and every card in a
    /// hand is a real, valid card.
    pub open spec fn wf(&self) -> bool {
        &&& self.hand@.len() == self.info@.len()
        &&& forall|i: int| 0 <= i < self.hand@.len() ==> valid_card(#[trigger] self.hand@[i])
    }
}

/// A firework pile for color index `ci` always starts with the value-0
/// sentinel and then climbs one value at a time, so the card at
/// position `j` has value `j`, and the pile never exceeds 6 cards.
pub open spec fn firework_wf(fw: Seq<Card>, ci: int) -> bool {
    &&& 1 <= fw.len() <= 6
    &&& forall|j: int|
        0 <= j < fw.len() ==> (#[trigger] fw[j]).value == j && color_index_spec(fw[j].color) == ci
}

/// All state that every player sees alike: the piles on the table, the
/// turn bookkeeping, and the hint and life economy. The deck's contents
/// are hidden from players; its size is shared knowledge.
pub struct BoardState {
    pub deck: Cards,
    pub discard: Cards,
    /// One firework pile per color, indexed by `color_index`.
    pub fireworks: Vec<Cards>,
    pub num_players: u32,
    /// Which turn it is, starting at 1.
    pub turn: u32,
    /// Whose turn it is, cyclic and 0-based.
    pub player: Player,
    pub hints_total: u32,
    pub hints_remaining: u32,
    pub lives_total: u32,
    pub lives_remaining: u32,
    /// Once the deck is empty, how many further turns are played before
    /// the game ends.
    pub deckless_turns_remaining: u32,
}

impl BoardState {
    /// The invariants that hold of the board between turns.
    pub open spec fn wf(&self) -> bool {
        &&& self.num_players >= 1
        &&& self.fireworks@.len() == 5
        &&& forall|c: int| 0 <= c < 5 ==> firework_wf(#[trigger] self.fireworks@[c]@, c)
        &&& forall|i: int| 0 <= i < self.deck@.len() ==> valid_card(#[trigger] self.deck@[i])
        &&& self.hints_remaining <= self.hints_total
        &&& self.lives_remaining <= self.lives_total
        &&& self.player < self.num_players
        &&& self.turn >= 1
        &&& (self.turn as int - 1) % (self.num_players as int) == self.player as int
        &&& self.deckless_turns_remaining as int <= self.num_players as int + 1
    }
}

/// The complete state of a game. Nothing outside it owns any part of
/// the board or of a player's state.
pub struct GameState {
    pub player_states: Vec<PlayerState>,
    pub board: BoardState,
}

/// One player's view of the game: their own knowledge slots, every
/// other player's full state, and the board. The viewing player's own
/// hand is absent, which is the information asymmetry of the game.
pub struct GameStateView {
    /// The player whose view this is.
    pub player: Player,
    /// What is commonly known about that player's own hand.
    pub info: CardsInfo,
    /// Every other player, with their full state, in seat order.
    pub other_player_states: Vec<(Player, PlayerState)>,
    /// A copy of the shared board state.
    pub board: BoardState,
}

/// Two boards that agree on every pile's contents and on every counter.
pub open spec fn boards_alike(a: BoardState, b: BoardState) -> bool {
    &&& a.deck@ == b.deck@
    &&& a.discard@ == b.discard@
    &&& a.fireworks@.len() == b.fireworks@.len()
    &&& forall|c: int| 0 <= c < a.fireworks@.len() ==> #[trigger] a.fireworks@[c]@ == b.fireworks@[c]@
    &&& a.num_players == b.num_players
    &&& a.turn == b.turn
    &&& a.player == b.player
    &&& a.hints_total == b.hints_total
    &&& a.hints_remaining == b.hints_remaining
    &&& a.lives_total == b.lives_total
    &&& a.lives_remaining == b.lives_remaining
    &&& a.deckless_turns_remaining == b.deckless_turns_remaining
}

/// Two player states that agree on hand and knowledge contents.
pub open spec fn player_states_alike(a: PlayerState, b: PlayerState) -> bool {
    &&& a.hand@ == b.hand@
    &&& a.info@ == b.info@
}

/// All the cards that the hands of `ps` hold together.
pub open spec fn hands_cards(ps: Seq<PlayerState>) -> Multiset<Card>
    decreases ps.len(),
{
    if ps.len() == 0 {
        Multiset::empty()
    } else {
        hands_cards(ps.drop_last()).add(ps.last().hand@.to_multiset())
    }
}

/// The hand after the card at `index` left it: later cards shift down,
/// and a replacement is drawn from the top of the deck if one remains.
pub open spec fn hand_after_take(hand: Seq<Card>, index: int, deck: Seq<Card>) -> Seq<Card> {
    if deck.len() > 0 {
        hand.remove(index).push(deck.last())
    } else {
        hand.remove(index)
    }
}

/// The knowledge pile after the slot at `index` left it: a fresh slot
/// arrives exactly when a replacement card is drawn.
pub open spec fn info_after_take(info: Seq<CardKnowledge>, index: int, deck: Seq<Card>) -> Seq<
    CardKnowledge,
> {
    if deck.len() > 0 {
        info.remove(index).push(CardKnowledge {  })
    } else {
        info.remove(index)
    }
}

/// The deck after at most one draw.
pub open spec fn deck_after_draw(deck: Seq<Card>) -> Seq<Card> {
    if deck.len() > 0 {
        deck.drop_last()
    } else {
        deck
    }
}

/// One more hint token, unless the cap is already reached.
pub open spec fn hint_refund(hints: int, total: int) -> int {
    if hints < total {
        hints + 1
    } else {
        hints
    }
}

/// The end-of-turn bookkeeping shared by every choice: the deckless
/// countdown ticks exactly when the deck stands empty, the turn counter
/// advances by one, and the acting player rotates by one seat.
pub open spec fn end_bookkeeping(pre: GameState, post: GameState) -> bool {
    &&& post.board.num_players == pre.board.num_players
    &&& post.board.turn as int == pre.board.turn as int + 1
    &&& post.board.player as int == (pre.board.player as int + 1) % (pre.board.num_players as int)
    &&& post.board.deckless_turns_remaining as int == if post.board.deck@.len() == 0 {
        pre.board.deckless_turns_remaining as int - 1
    } else {
        pre.board.deckless_turns_remaining as int
    }
    &&& post.board.hints_total == pre.board.hints_total
    &&& post.board.lives_total == pre.board.lives_total
}

/// What a hint does: it costs one token and touches nothing else.
pub open spec fn hint_applied(pre: GameState, post: GameState) -> bool {
    &&& post.player_states@ == pre.player_states@
    &&& post.board.deck@ == pre.board.deck@
    &&& post.board.discard@ == pre.board.discard@
    &&& post.board.fireworks == pre.board.fireworks
    &&& post.board.hints_remaining as int == pre.board.hints_remaining as int - 1
    &&& post.board.lives_remaining == pre.board.lives_remaining
    &&& end_bookkeeping(pre, post)
}

/// The acting player's state after the card at `index` left their hand,
/// with every other player untouched.
pub open spec fn hand_slot_taken(pre: GameState, post: GameState, index: int) -> bool {
    let p = pre.board.player as int;
    &&& post.player_states@ == pre.player_states@.update(p, post.player_states@[p])
    &&& post.player_states@[p].hand@ == hand_after_take(
        pre.player_states@[p].hand@,
        index,
        pre.board.deck@,
    )
    &&& post.player_states@[p].info@ == info_after_take(
        pre.player_states@[p].info@,
        index,
        pre.board.deck@,
    )
    &&& post.board.deck@ == deck_after_draw(pre.board.deck@)
}

/// What a discard does: the card at `index` moves from the acting
/// player's hand to the discard pile, a replacement is drawn if the
/// deck allows it, and one hint token is refunded up to the cap.
pub open spec fn discard_applied(pre: GameState, post: GameState, index: int) -> bool {
    let p = pre.board.player as int;
    let card = pre.player_states@[p].hand@[index];
    &&& hand_slot_taken(pre, post, index)
    &&& post.board.discard@ == pre.board.discard@.push(card)
    &&& post.board.fireworks == pre.board.fireworks
    &&& post.board.hints_remaining as int == hint_refund(
        pre.board.hints_remaining as int,
        pre.board.hints_total as int,
    )
    &&& post.board.lives_remaining == pre.board.lives_remaining
    &&& end_bookkeeping(pre, post)
}

/// Whether playing `card` on the fireworks is legal: its value must be
/// exactly one above the top of its color's pile.
pub open spec fn play_is_legal(pre: GameState, card: Card) -> bool {
    let ci = color_index_spec(card.color);
    card.value as int == pre.board.fireworks@[ci]@.last().value as int + 1
}

/// What a play does: the card at `index` leaves the hand like a
/// discard; a legal card extends its firework (refunding a hint if it
/// completes the color), an illegal one goes to the discard pile and
/// costs a life.
pub open spec fn play_applied(pre: GameState, post: GameState, index: int) -> bool {
    let p = pre.board.player as int;
    let card = pre.player_states@[p].hand@[index];
    let ci = color_index_spec(card.color);
    &&& hand_slot_taken(pre, post, index)
    &&& if play_is_legal(pre, card) {
        &&& post.board.fireworks@ == pre.board.fireworks@.update(ci, post.board.fireworks@[ci])
        &&& post.board.fireworks@[ci]@ == pre.board.fireworks@[ci]@.push(card)
        &&& post.board.discard@ == pre.board.discard@
        &&& post.board.lives_remaining == pre.board.lives_remaining
        &&& post.board.hints_remaining as int == if card.value == FINAL_VALUE {
            hint_refund(pre.board.hints_remaining as int, pre.board.hints_total as int)
        } else {
            pre.board.hints_remaining as int
        }
    } else {
        &&& post.board.fireworks == pre.board.fireworks
        &&& post.board.discard@ == pre.board.discard@.push(card)
        &&& post.board.lives_remaining as int == pre.board.lives_remaining as int - 1
        &&& post.board.hints_remaining == pre.board.hints_remaining
    }
    &&& end_bookkeeping(pre, post)
}

/// The complete contract of one `process_choice` call: which error
/// comes back on which state, and exactly how the state moves when the
/// choice is carried out.
pub open spec fn process_outcome(
    pre: GameState,
    post: GameState,
    choice: TurnChoice,
    r: Result<(), GameError>,
) -> bool {
    if pre.spec_is_over() {
        &&& r == Err::<(), GameError>(GameError::GameAlreadyOver)
        &&& post == pre
    } else {
        match choice {
            TurnChoice::Hint => {
                if pre.board.hints_remaining == 0 {
                    &&& r == Err::<(), GameError>(GameError::IllegalHint)
                    &&& post == pre
                } else {
                    &&& r == Ok::<(), GameError>(())
                    &&& hint_applied(pre, post)
                }
            },
            TurnChoice::Discard(index) => {
                if index >= pre.current_hand_len() {
                    &&& r == Err::<(), GameError>(GameError::HandIndexOutOfRange)
                    &&& post == pre
                } else {
                    &&& r == Ok::<(), GameError>(())
                    &&& discard_applied(pre, post, index as int)
                }
            },
            TurnChoice::Play(index) => {
                if index >= pre.current_hand_len() {
                    &&& r == Err::<(), GameError>(GameError::HandIndexOutOfRange)
                    &&& post == pre
                } else {
                    &&& r == Ok::<(), GameError>(())
                    &&& play_applied(pre, post, index as int)
                }
            },
        }
    }
}

impl GameState {
    /// The invariants that hold of a game between turns.
    pub open spec fn wf(&self) -> bool {
        &&& self.board.wf()
        &&& self.player_states@.len() == self.board.num_players as int
        &&& forall|p: int|
            0 <= p < self.player_states@.len() ==> (#[trigger] self.player_states@[p]).wf()
    }

    /// The game ends when the lives are gone or the deckless countdown
    /// has run out.
    pub open spec fn spec_is_over(&self) -> bool {
        self.board.lives_remaining == 0 || self.board.deckless_turns_remaining == 0
    }

    /// The score: one point per successfully played card, which is each
    /// firework's size minus its sentinel.
    pub open spec fn spec_score(&self) -> int {
        (self.board.fireworks@[0]@.len() - 1) + (self.board.fireworks@[1]@.len() - 1) + (
        self.board.fireworks@[2]@.len() - 1) + (self.board.fireworks@[3]@.len() - 1) + (
        self.board.fireworks@[4]@.len() - 1)
    }

    /// How many cards the acting player holds.
    pub open spec fn current_hand_len(&self) -> int {
        self.player_states@[self.board.player as int].hand@.len() as int
    }

    /// Build the 50-card deck and shuffle it with the supplied
    /// generator: the shuffled deck holds exactly the ten cards of each
    /// color, in some order.
    fn make_deck(rng: &mut rand::rngs::StdRng) -> (deck: Cards)
        ensures
            deck@.len() == 50,
            deck@.to_multiset() == full_deck().to_multiset(),
            forall|i: int| 0 <= i < deck@.len() ==> valid_card(#[trigger] deck@[i]),
    {
        let mut deck: Cards = Pile::new();
        let mut i: usize = 0;
        while i < 50
            invariant
                i <= 50,
                deck@ == full_deck().take(i as int),
            decreases 50 - i,
        {
            let color = color_at(i / 10);
            let j = i % 10;
            let value: Value = if j < 3 {
                1
            } else if j < 5 {
                2
            } else if j < 7 {
                3
            } else if j < 9 {
                4
            } else {
                5
            };
            deck.place(Card { color, value });
            proof {
                assert(full_deck()[i as int] == (Card { color, value }));
                assert(deck@ =~= full_deck().take(i as int + 1));
            }
            i = i + 1;
        }
        proof {
            assert(deck@ =~= full_deck());
        }
        deck.shuffle(rng);
        proof {
            lemma_full_deck_valid();
            assert forall|k: int| 0 <= k < deck@.len() implies valid_card(#[trigger] deck@[k]) by {
                assert(deck@.contains(deck@[k]));
                vstd::seq_lib::to_multiset_contains(deck@, deck@[k]);
                vstd::seq_lib::to_multiset_contains(full_deck(), deck@[k]);
                assert(full_deck().contains(deck@[k]));
                let w = choose|w: int| 0 <= w < full_deck().len() && full_deck()[w] == deck@[k];
                assert(valid_card(full_deck()[w]));
            }
        }
        deck
    }

    /// Set up a game from the configuration: build and shuffle the
    /// deck, deal every hand with fresh knowledge slots, seed the five
    /// fireworks with their sentinels, and initialize the counters. The
    /// requested hands must fit in the deck, or construction fails.
    pub fn new(opts: &GameOptions, rng: &mut rand::rngs::StdRng) -> (r: Result<
        GameState,
        GameError,
    >)
        requires
            opts.num_players >= 1,
            opts.hand_size >= 1,
            opts.num_hints >= 1,
            opts.num_lives >= 1,
        ensures
            (opts.num_players as int * opts.hand_size as int > 50) <==> r is Err,
            r is Err ==> r == Err::<GameState, GameError>(GameError::Construction),
            r matches Ok(g) ==> g.wf() && fresh_game(g, *opts),
    {
        let np = opts.num_players;
        let hs = opts.hand_size;
        proof {
            assert(np as int * hs as int <= u64::MAX as int) by (nonlinear_arith)
                requires
                    np as int <= 0xffff_ffffint,
                    hs as int <= 0xffff_ffffint,
            ;
        }
        if (np as u64) * (hs as u64) > 50 {
            return Err(GameError::Construction);
        }
        proof {
            assert(np as int <= 50) by (nonlinear_arith)
                requires
                    np as int * hs as int <= 50,
                    hs as int >= 1,
                    np as int >= 1,
            ;
        }
        let mut deck = Self::make_deck(rng);
        let mut player_states: Vec<PlayerState> = Vec::new();
        proof {
            broadcast use group_multiset_axioms;

            assert(deck@.to_multiset().add(hands_cards(player_states@)) =~= full_deck()
                .to_multiset());
        }
        let mut i: u32 = 0;
        while i < np
            invariant
                i <= np,
                np <= 50,
                hs >= 1,
                np as int * hs as int <= 50,
                player_states@.len() == i as int,
                deck@.len() == 50 - i as int * hs as int,
                deck@.to_multiset().add(hands_cards(player_states@)) == full_deck().to_multiset(),
                forall|q: int| 0 <= q < i as int ==> (#[trigger] player_states@[q]).wf(),
                forall|q: int|
                    0 <= q < i as int ==> (#[trigger] player_states@[q]).hand@.len()
                        == hs as int,
                forall|k: int| 0 <= k < deck@.len() ==> valid_card(#[trigger] deck@[k]),
            decreases np - i,
        {
            proof {
                assert((i as int + 1) * hs as int == i as int * hs as int + hs as int)
                    by (nonlinear_arith);
                assert((i as int + 1) * hs as int <= np as int * hs as int) by (nonlinear_arith)
                    requires
                        i as int + 1 <= np as int,
                        hs as int >= 1,
                ;
            }
            let mut hand: Cards = Pile::new();
            let mut info: CardsInfo = Pile::new();
            proof {
                broadcast use group_multiset_axioms, group_to_multiset_ensures;

                assert(hand@.to_multiset().len() == 0);
                assert(hand@.to_multiset() =~= Multiset::empty());
                assert(deck@.to_multiset().add(hands_cards(player_states@)).add(
                    hand@.to_multiset(),
                ) =~= full_deck().to_multiset());
            }
            let mut k: u32 = 0;
            while k < hs
                invariant
                    k <= hs,
                    hand@.len() == k as int,
                    info@.len() == k as int,
                    deck@.len() == 50 - i as int * hs as int - k as int,
                    i as int * hs as int + hs as int <= 50,
                    deck@.to_multiset().add(hands_cards(player_states@)).add(hand@.to_multiset())
                        == full_deck().to_multiset(),
                    forall|d: int| 0 <= d < hand@.len() ==> valid_card(#[trigger] hand@[d]),
                    forall|d: int| 0 <= d < deck@.len() ==> valid_card(#[trigger] deck@[d]),
                decreases hs - k,
            {
                let ghost pre_deck = deck@;
                let ghost pre_hand = hand@;
                let card = deck.draw().unwrap();
                hand.place(card);
                info.place(CardKnowledge::new());
                proof {
                    broadcast use group_multiset_axioms, group_to_multiset_ensures;

                    assert(pre_deck.drop_last() =~= pre_deck.remove(pre_deck.len() - 1));
                    vstd::seq_lib::to_multiset_remove(pre_deck, pre_deck.len() - 1);
                    vstd::seq_lib::to_multiset_build(pre_hand, card);
                    assert(pre_deck.contains(card));
                    vstd::seq_lib::to_multiset_contains(pre_deck, card);
                    assert(deck@.to_multiset() == pre_deck.to_multiset().remove(card));
                    assert(hand@.to_multiset() == pre_hand.to_multiset().insert(card));
                    assert(deck@.to_multiset().add(hands_cards(player_states@)).add(
                        hand@.to_multiset(),
                    ) =~= full_deck().to_multiset());
                }
                k = k + 1;
            }
            let ghost pre_states = player_states@;
            let ghost hand_snap = hand@;
            player_states.push(PlayerState { hand, info });
            proof {
                broadcast use group_multiset_axioms;

                assert(player_states@.drop_last() =~= pre_states);
                assert(player_states@.last().hand@ == hand_snap);
                assert(hands_cards(player_states@) == hands_cards(pre_states).add(
                    hand_snap.to_multiset(),
                ));
                assert(deck@.to_multiset().add(hands_cards(player_states@)) =~= full_deck()
                    .to_multiset());
            }
            i = i + 1;
        }
        let mut fireworks: Vec<Cards> = Vec::new();
        let mut c: usize = 0;
        while c < 5
            invariant
                c <= 5,
                fireworks@.len() == c as int,
                forall|d: int| 0 <= d < c as int ==> firework_wf(#[trigger] fireworks@[d]@, d),
                forall|d: int|
                    0 <= d < c as int ==> (#[trigger] fireworks@[d]@).len() == 1 && fireworks@[d]@[0]
                        == (Card { color: color_at_spec(d), value: 0 }),
            decreases 5 - c,
        {
            let mut fw: Cards = Pile::new();
            fw.place(Card { color: color_at(c), value: 0 });
            fireworks.push(fw);
            c = c + 1;
        }
        proof {
            vstd::arithmetic::div_mod::lemma_small_mod(0nat, np as nat);
        }
        let game = GameState {
            player_states,
            board: BoardState {
                deck,
                discard: Pile::new(),
                fireworks,
                num_players: np,
                turn: 1,
                player: 0,
                hints_total: opts.num_hints,
                hints_remaining: opts.num_hints,
                lives_total: opts.num_lives,
                lives_remaining: opts.num_lives,
                deckless_turns_remaining: np + 1,
            },
        };
        Ok(game)
    }

    /// The players of the game, in seat order.
    pub fn get_players(&self) -> (r: Vec<Player>)
        ensures
            r@.len() == self.board.num_players as int,
            forall|i: int| 0 <= i < r@.len() ==> #[trigger] r@[i] as int == i,
    {
        let mut v: Vec<Player> = Vec::new();
        let mut p: u32 = 0;
        while p < self.board.num_players
            invariant
                p <= self.board.num_players,
                v@.len() == p as int,
                forall|i: int| 0 <= i < v@.len() ==> #[trigger] v@[i] as int == i,
            decreases self.board.num_players - p,
        {
            v.push(p);
            p = p + 1;
        }
        v
    }

    /// Whether the game has ended.
    pub fn is_over(&self) -> (r: bool)
        ensures
            r == self.spec_is_over(),
    {
        self.board.lives_remaining == 0 || self.board.deckless_turns_remaining == 0
    }

    /// The score so far; it never exceeds 25, five per color.
    pub fn score(&self) -> (r: Score)
        requires
            self.wf(),
        ensures
            r as int == self.spec_score(),
            r <= 25,
    {
        proof {
            assert(firework_wf(self.board.fireworks@[0]@, 0));
            assert(firework_wf(self.board.fireworks@[1]@, 1));
            assert(firework_wf(self.board.fireworks@[2]@, 2));
            assert(firework_wf(self.board.fireworks@[3]@, 3));
            assert(firework_wf(self.board.fireworks@[4]@, 4));
        }
        let s0 = self.board.fireworks[0].size() - 1;
        let s1 = self.board.fireworks[1].size() - 1;
        let s2 = self.board.fireworks[2].size() - 1;
        let s3 = self.board.fireworks[3].size() - 1;
        let s4 = self.board.fireworks[4].size() - 1;
        (s0 + s1 + s2 + s3 + s4) as u32
    }

    /// The view of the game scoped to `player`: their own knowledge
    /// slots, every other player's full state, and the board. The
    /// requesting player's own hand appears nowhere in it.
    pub fn get_view(&self, player: Player) -> (v: GameStateView)
        requires
            self.wf(),
            player < self.board.num_players,
        ensures
            v.player == player,
            v.info@ == self.player_states@[player as int].info@,
            v.other_player_states@.len() == self.board.num_players as int - 1,
            forall|k: int|
                0 <= k < v.other_player_states@.len() ==> (#[trigger] v.other_player_states@[k]).0
                    as int == if k < player as int {
                    k
                } else {
                    k + 1
                },
            forall|k: int|
                0 <= k < v.other_player_states@.len() ==> (#[trigger] v.other_player_states@[k]).0
                    != player,
            forall|k: int|
                0 <= k < v.other_player_states@.len() ==> player_states_alike(
                    (#[trigger] v.other_player_states@[k]).1,
                    self.player_states@[v.other_player_states@[k].0 as int],
                ),
            boards_alike(v.board, self.board),
    {
        let mut others: Vec<(Player, PlayerState)> = Vec::new();
        let mut q: u32 = 0;
        while q < self.board.num_players
            invariant
                self.wf(),
                player < self.board.num_players,
                q <= self.board.num_players,
                others@.len() == if q as int <= player as int {
                    q as int
                } else {
                    q as int - 1
                },
                forall|k: int|
                    0 <= k < others@.len() ==> (#[trigger] others@[k]).0 as int == if k < player
                        as int {
                        k
                    } else {
                        k + 1
                    },
                forall|k: int|
                    0 <= k < others@.len() ==> player_states_alike(
                        (#[trigger] others@[k]).1,
                        self.player_states@[others@[k].0 as int],
                    ),
            decreases self.board.num_players - q,
        {
            if q != player {
                let ps: &PlayerState = &self.player_states[q as usize];
                let copy = PlayerState { hand: ps.hand.duplicate(), info: ps.info.duplicate() };
                others.push((q, copy));
            }
            q = q + 1;
        }
        let own: &PlayerState = &self.player_states[player as usize];
        let view = GameStateView {
            player,
            info: own.info.duplicate(),
            other_player_states: others,
            board: self.board_snapshot(),
        };
        view
    }

    /// A copy of the board, pile by pile.
    fn board_snapshot(&self) -> (b: BoardState)
        ensures
            boards_alike(b, self.board),
    {
        let mut fireworks: Vec<Cards> = Vec::new();
        let mut c: usize = 0;
        while c < self.board.fireworks.len()
            invariant
                c <= self.board.fireworks@.len(),
                fireworks@.len() == c as int,
                forall|d: int|
                    0 <= d < c as int ==> #[trigger] fireworks@[d]@ == self.board.fireworks@[d]@,
            decreases self.board.fireworks@.len() - c,
        {
            fireworks.push(self.board.fireworks[c].duplicate());
            c = c + 1;
        }
        BoardState {
            deck: self.board.deck.duplicate(),
            discard: self.board.discard.duplicate(),
            fireworks,
            num_players: self.board.num_players,
            turn: self.board.turn,
            player: self.board.player,
            hints_total: self.board.hints_total,
            hints_remaining: self.board.hints_remaining,
            lives_total: self.board.lives_total,
            lives_remaining: self.board.lives_remaining,
            deckless_turns_remaining: self.board.deckless_turns_remaining,
        }
    }

    /// Take the card at `index` from the acting player's hand together
    /// with its knowledge slot, drawing a replacement card and a fresh
    /// slot if the deck still has cards.
    fn take_from_hand(&mut self, index: usize) -> (card: Card)
        requires
            old(self).wf(),
            index < old(self).current_hand_len(),
        ensures
            card == old(self).player_states@[old(self).board.player as int].hand@[index as int],
            valid_card(card),
            hand_slot_taken(*old(self), *final(self), index as int),
            final(self).player_states@.len() == old(self).player_states@.len(),
            final(self).player_states@[old(self).board.player as int].wf(),
            final(self).board.discard == old(self).board.discard,
            final(self).board.fireworks == old(self).board.fireworks,
            final(self).board.num_players == old(self).board.num_players,
            final(self).board.turn == old(self).board.turn,
            final(self).board.player == old(self).board.player,
            final(self).board.hints_total == old(self).board.hints_total,
            final(self).board.hints_remaining == old(self).board.hints_remaining,
            final(self).board.lives_total == old(self).board.lives_total,
            final(self).board.lives_remaining == old(self).board.lives_remaining,
            final(self).board.deckless_turns_remaining == old(
                self,
            ).board.deckless_turns_remaining,
    {
        let p = self.board.player as usize;
        let ghost pre_states = self.player_states@;
        let mut state = self.player_states.remove(p);
        let card = state.hand.take(index);
        let _slot = state.info.take(index);
        match self.board.deck.draw() {
            Some(new_card) => {
                state.hand.place(new_card);
                state.info.place(CardKnowledge::new());
            },
            None => {},
        }
        self.player_states.insert(p, state);
        proof {
            assert(self.player_states@ =~= pre_states.update(
                p as int,
                self.player_states@[p as int],
            ));
        }
        card
    }

    /// Refund one hint token, capped at the total.
    fn try_add_hint(&mut self)
        ensures
            final(self).board.hints_remaining as int == hint_refund(
                old(self).board.hints_remaining as int,
                old(self).board.hints_total as int,
            ),
            final(self).player_states == old(self).player_states,
            final(self).board == (BoardState {
                hints_remaining: final(self).board.hints_remaining,
                ..old(self).board
            }),
    {
        if self.board.hints_remaining < self.board.hints_total {
            self.board.hints_remaining = self.board.hints_remaining + 1;
        }
    }

    /// Apply one turn. Exactly one call advances exactly one turn: the
    /// chosen action is carried out, then the deckless countdown, the
    /// turn counter and the acting player advance. On a finished game,
    /// an exhausted hint supply, or an out-of-range hand index, the
    /// state is left untouched and the matching error comes back.
    pub fn process_choice(&mut self, choice: &TurnChoice) -> (r: Result<(), GameError>)
        requires
            old(self).wf(),
            old(self).board.turn < u32::MAX,
        ensures
            final(self).wf(),
            process_outcome(*old(self), *final(self), *choice, r),
    {
        if self.is_over() {
            return Err(GameError::GameAlreadyOver);
        }
        match *choice {
            TurnChoice::Hint => {
                if self.board.hints_remaining == 0 {
                    return Err(GameError::IllegalHint);
                }
                self.board.hints_remaining = self.board.hints_remaining - 1;
            },
            TurnChoice::Discard(index) => {
                let p = self.board.player as usize;
                if index >= self.player_states[p].hand.size() {
                    return Err(GameError::HandIndexOutOfRange);
                }
                let card = self.take_from_hand(index);
                self.board.discard.place(card);
                self.try_add_hint();
            },
            TurnChoice::Play(index) => {
                let p = self.board.player as usize;
                if index >= self.player_states[p].hand.size() {
                    return Err(GameError::HandIndexOutOfRange);
                }
                let card = self.take_from_hand(index);
                let ci = color_index(card.color);
                proof {
                    assert(firework_wf(self.board.fireworks@[ci as int]@, ci as int));
                }
                let top_value: Value = {
                    let fw: &Cards = &self.board.fireworks[ci];
                    fw.get(fw.size() - 1).value
                };
                if card.value == top_value + 1 {
                    let firework_made = card.value == FINAL_VALUE;
                    let ghost pre_fireworks = self.board.fireworks@;
                    let mut fw = self.board.fireworks.remove(ci);
                    fw.place(card);
                    self.board.fireworks.insert(ci, fw);
                    proof {
                        assert(self.board.fireworks@ =~= pre_fireworks.update(
                            ci as int,
                            self.board.fireworks@[ci as int],
                        ));
                        let newfw = self.board.fireworks@[ci as int]@;
                        assert(newfw == pre_fireworks[ci as int]@.push(card));
                        assert forall|j: int|
                            0 <= j < newfw.len() implies (#[trigger] newfw[j]).value == j
                            && color_index_spec(newfw[j].color) == ci as int by {
                            if j < newfw.len() - 1 {
                                assert(newfw[j] == pre_fireworks[ci as int]@[j]);
                            } else {
                                assert(newfw[j] == card);
                            }
                        }
                        assert(firework_wf(newfw, ci as int));
                        assert forall|c2: int|
                            0 <= c2 < 5 implies firework_wf(
                            #[trigger] self.board.fireworks@[c2]@,
                            c2,
                        ) by {
                            if c2 != ci as int {
                                assert(self.board.fireworks@[c2]@ == pre_fireworks[c2]@);
                            }
                        }
                    }
                    if firework_made {
                        self.try_add_hint();
                    }
                } else {
                    self.board.discard.place(card);
                    self.board.lives_remaining = self.board.lives_remaining - 1;
                }
            },
        }
        if self.board.deck.size() == 0 {
            self.board.deckless_turns_remaining = self.board.deckless_turns_remaining - 1;
        }
        self.board.turn = self.board.turn + 1;
        proof {
            let t = old(self).board.turn as int;
            let n = old(self).board.num_players as int;
            let p = old(self).board.player as int;
            lemma_add_mod_noop(t - 1, 1, n);
            lemma_add_mod_noop(p, 1, n);
            vstd::arithmetic::div_mod::lemma_small_mod(p as nat, n as nat);
            lemma_mod_division_less_than_divisor(p + 1, n);
            assert(t % n == (p + 1) % n);
        }
        self.board.player = (self.board.player + 1) % self.board.num_players;
        proof {
            let p = old(self).board.player as int;
            assert forall|q: int|
                0 <= q < self.player_states@.len() implies (#[trigger] self.player_states@[q]).wf()
                by {
                if q != p {
                    assert(self.player_states@[q] == old(self).player_states@[q]);
                }
            }
        }
        Ok(())
    }
}

/// What holds of a game right after construction: full counters, every
/// hand dealt to size with blank knowledge, sentinel-only fireworks, an
/// empty discard pile, and the deck holding whatever the deal left.
pub open spec fn fresh_game(g: GameState, opts: GameOptions) -> bool {
    &&& g.board.num_players == opts.num_players
    &&& g.player_states@.len() == opts.num_players as int
    &&& forall|p: int|
        0 <= p < g.player_states@.len() ==> (#[trigger] g.player_states@[p]).hand@.len()
            == opts.hand_size as int
    &&& forall|p: int|
        0 <= p < g.player_states@.len() ==> (#[trigger] g.player_states@[p]).info@.len()
            == opts.hand_size as int
    &&& g.board.deck@.len() == 50 - opts.num_players as int * opts.hand_size as int
    &&& g.board.deck@.to_multiset().add(hands_cards(g.player_states@)) == full_deck().to_multiset()
    &&& g.board.discard@.len() == 0
    &&& g.board.fireworks@.len() == 5
    &&& forall|c: int|
        0 <= c < 5 ==> (#[trigger] g.board.fireworks@[c]@).len() == 1 && g.board.fireworks@[c]@[0]
            == (Card { color: color_at_spec(c), value: 0 })
    &&& g.board.turn == 1
    &&& g.board.player == 0
    &&& g.board.hints_total == opts.num_hints
    &&& g.board.hints_remaining == opts.num_hints
    &&& g.board.lives_total == opts.num_lives
    &&& g.board.lives_remaining == opts.num_lives
    &&& g.board.deckless_turns_remaining as int == opts.num_players as int + 1
}

} // verus!
