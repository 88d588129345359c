use vstd::prelude::*;
use crate::game::{firework_wf, process_outcome, GameError, GameState, TurnChoice};

verus! {

/// Every well-formed game keeps each hand exactly as long as its
/// knowledge pile: each physical card has one knowledge slot, and
/// `process_choice` keeps games well-formed, so this holds after any
/// run of processed choices.
pub proof fn lemma_hands_match_info(g: GameState)
    requires
        g.wf(),
    ensures
        forall|p: int|
            0 <= p < g.player_states@.len() ==> (#[trigger] g.player_states@[p]).hand@.len()
                == g.player_states@[p].info@.len(),
{
}

/// The hint and life counters of a well-formed game never leave their
/// caps: each stays between zero and its configured total.
pub proof fn lemma_resource_bounds(g: GameState)
    requires
        g.wf(),
    ensures
        0 <= g.board.hints_remaining <= g.board.hints_total,
        0 <= g.board.lives_remaining <= g.board.lives_total,
{
}

/// The score of a well-formed game always lies between 0 and 25: each
/// of the five fireworks contributes its size minus the sentinel,
/// which is between 0 and 5.
pub proof fn lemma_score_range(g: GameState)
    requires
        g.wf(),
    ensures
        0 <= g.spec_score() <= 25,
{
    assert(firework_wf(g.board.fireworks@[0]@, 0));
    assert(firework_wf(g.board.fireworks@[1]@, 1));
    assert(firework_wf(g.board.fireworks@[2]@, 2));
    assert(firework_wf(g.board.fireworks@[3]@, 3));
    assert(firework_wf(g.board.fireworks@[4]@, 4));
}

/// Every successfully processed choice advances the turn counter by
/// exactly one, hands the move to the next player around the table,
/// and re-establishes the cyclic relation between turn and player.
pub proof fn lemma_turn_advances(
    pre: GameState,
    post: GameState,
    choice: TurnChoice,
    r: Result<(), GameError>,
)
    requires
        pre.wf(),
        post.wf(),
        process_outcome(pre, post, choice, r),
        r is Ok,
    ensures
        post.board.turn as int == pre.board.turn as int + 1,
        post.board.player as int == (pre.board.player as int + 1) % (pre.board.num_players as int),
        (post.board.turn as int - 1) % (post.board.num_players as int) == post.board.player as int,
{
}

/// The end of the game is final: once a game is over, processing any
/// further choice is refused and leaves the state untouched, so no
/// sequence of calls can ever make `is_over` flip back.
pub proof fn lemma_over_is_monotonic(
    pre: GameState,
    post: GameState,
    choice: TurnChoice,
    r: Result<(), GameError>,
)
    requires
        process_outcome(pre, post, choice, r),
        pre.spec_is_over(),
    ensures
        post.spec_is_over(),
        post == pre,
        r == Err::<(), GameError>(GameError::GameAlreadyOver),
{
}

} // verus!
