use vstd::prelude::*;

verus! {

/// One of the five colors a card can have.
#[derive(Clone, Copy, PartialEq, Eq, Structural, Debug)]
pub enum Color {
    Blue,
    Red,
    Yellow,
    White,
    Green,
}

/// The face value of a card: 1 through 5 for real cards, 0 for the
/// sentinel that seeds each firework.
pub type Value = u32;

/// The highest card value; completing a firework up to it refunds a hint.
pub const FINAL_VALUE: Value = 5;

/// The position of a color in the fixed color order; it doubles as the
/// index of that color's firework pile.
pub open spec fn color_index_spec(c: Color) -> int {
    match c {
        Color::Blue => 0,
        Color::Red => 1,
        Color::Yellow => 2,
        Color::White => 3,
        Color::Green => 4,
    }
}

/// The color at a given position of the fixed color order.
pub open spec fn color_at_spec(i: int) -> Color {
    if i == 0 {
        Color::Blue
    } else if i == 1 {
        Color::Red
    } else if i == 2 {
        Color::Yellow
    } else if i == 3 {
        Color::White
    } else {
        Color::Green
    }
}

/// Executable counterpart of `color_index_spec`.
pub fn color_index(c: Color) -> (i: usize)
    ensures
        i as int == color_index_spec(c),
        i < 5,
{
    match c {
        Color::Blue => 0,
        Color::Red => 1,
        Color::Yellow => 2,
        Color::White => 3,
        Color::Green => 4,
    }
}

/// Executable counterpart of `color_at_spec`.
pub fn color_at(i: usize) -> (c: Color)
    requires
        i < 5,
    ensures
        c == color_at_spec(i as int),
        color_index_spec(c) == i as int,
{
    if i == 0 {
        Color::Blue
    } else if i == 1 {
        Color::Red
    } else if i == 2 {
        Color::Yellow
    } else if i == 3 {
        Color::White
    } else {
        Color::Green
    }
}

/// A card: a color and a value. Immutable once created.
#[derive(Clone, Copy, PartialEq, Eq, Structural, Debug)]
pub struct Card {
    pub color: Color,
    pub value: Value,
}

/// A card that can occur in the deck or in a hand (the sentinel cards
/// seeded into fireworks have value 0 and are not valid in this sense).
pub open spec fn valid_card(c: Card) -> bool {
    1 <= c.value <= FINAL_VALUE
}

/// The value of the card at offset `j` within one color's ten-card run:
/// three 1s, two 2s, two 3s, two 4s and one 5.
pub open spec fn deck_value_at(j: int) -> Value {
    if j < 3 {
        1
    } else if j < 5 {
        2
    } else if j < 7 {
        3
    } else if j < 9 {
        4
    } else {
        5
    }
}

/// The card at position `i` of the unshuffled deck: ten cards per color,
/// ordered by color and then by value.
pub open spec fn deck_card_at(i: int) -> Card {
    Card { color: color_at_spec(i / 10), value: deck_value_at(i % 10) }
}

/// The unshuffled 50-card deck: 5 colors times 10 cards.
pub open spec fn full_deck() -> Seq<Card> {
    Seq::new(50, |i: int| deck_card_at(i))
}

/// Every card of the unshuffled deck is a valid card.
pub proof fn lemma_full_deck_valid()
    ensures
        full_deck().len() == 50,
        forall|i: int| 0 <= i < 50 ==> valid_card(#[trigger] full_deck()[i]),
{
}

} // verus!
