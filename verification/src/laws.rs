//! What holds of every session, whatever the players send and however the
//! dice fall: the laws of the turn, of the last stand, of the play-again
//! negotiation and of the hands.

use crate::board::{all_sunk, is_board, placed, with_cell};
use crate::cards::{lemma_first_repairable, MAX_HAND_SIZE};
use crate::model::{
    after_missile, attack, attack_accepted, card_accepted, defeat, elapsed, game_over, last_stand,
    last_stand_accepted, opponent, place_ships, play_again, reset, step, tick, use_card, Chance,
    OutgoingView, PlayAgainState, SessionView, LAST_STAND_WINDOW_MS, PLAY_AGAIN_WINDOW_MS,
};
use crate::types::{CellState, MessageView, PowerUp};
use vstd::prelude::*;

verus! {

/// Changing one cell of a board leaves a board.
pub proof fn lemma_with_cell_is_board(b: Seq<Seq<CellState>>, x: int, y: int, c: CellState)
    requires
        is_board(b),
        0 <= x < 10,
        0 <= y < 10,
    ensures
        is_board(with_cell(b, x, y, c)),
{
    assert forall|r: int| 0 <= r < 10 implies (#[trigger] with_cell(b, x, y, c)[r]).len() == 10 by {
        assert(b[r].len() == 10);
    }
}

/// Placing a ship on a board leaves a board.
pub proof fn lemma_placed_is_board(
    b: Seq<Seq<CellState>>,
    x: int,
    y: int,
    length: int,
    horizontal: bool,
)
    requires
        is_board(b),
    ensures
        is_board(placed(b, x, y, length, horizontal)),
{
    assert forall|r: int| 0 <= r < 10 implies (#[trigger] placed(
        b,
        x,
        y,
        length,
        horizontal,
    )[r]).len() == 10 by {
        assert(b[r].len() == 10);
    }
}

/// A missile leaves a board.
pub proof fn lemma_after_missile_is_board(b: Seq<Seq<CellState>>, at: Option<(usize, usize)>)
    requires
        is_board(b),
    ensures
        is_board(after_missile(b, at)),
{
    if at is Some && crate::cards::is_target(b, at->Some_0.0 as int, at->Some_0.1 as int) {
        let p = at->Some_0;
        lemma_with_cell_is_board(
            b,
            p.0 as int,
            p.1 as int,
            if b[p.1 as int][p.0 as int] == CellState::Ship {
                CellState::Hit
            } else {
                CellState::Miss
            },
        );
    }
}

/// The defeat of a player keeps the invariant.
pub proof fn lemma_defeat_keeps_invariant(
    s: SessionView,
    loser: usize,
    resume_turn: usize,
    now: u64,
)
    requires
        s.inv(),
        s.p1.ready && s.p2.ready,
        loser <= 1,
        resume_turn <= 1,
    ensures
        defeat(s, loser, resume_turn, now).0.inv(),
{
}

/// A placement keeps the invariant.
pub proof fn lemma_place_ships_keeps_invariant(
    s: SessionView,
    from: usize,
    grid: Seq<Seq<CellState>>,
)
    requires
        s.inv(),
    ensures
        place_ships(s, from, grid).0.inv(),
{
}

/// A shot keeps the invariant.
pub proof fn lemma_attack_keeps_invariant(
    s: SessionView,
    from: usize,
    x: usize,
    y: usize,
    now: u64,
    chance: Chance,
)
    requires
        s.inv(),
    ensures
        attack(s, from, x, y, now, chance).0.inv(),
{
    if attack_accepted(s, from, x, y) {
        let target = opponent(from);
        let b = s.player(target).grid->Some_0;
        let shield = crate::model::shielded(s.player(target), chance);
        let b1 = crate::cards::after_shot(b, x as int, y as int, shield);
        lemma_with_cell_is_board(
            b,
            x as int,
            y as int,
            crate::cards::cell_after_shot(b[y as int][x as int], shield),
        );
        let hit = crate::cards::shot_hits(b, x as int, y as int, shield);
        let draws = hit && s.player(from).hand.len() < MAX_HAND_SIZE;
        let s1 = s.with_player(
            target,
            crate::model::PlayerView { grid: Some(b1), shield_active: false, ..s.player(target) },
        );
        let s2 = if draws {
            s1.with_player(
                from,
                crate::model::PlayerView {
                    hand: s1.player(from).hand.push(chance.drawn),
                    ..s1.player(from)
                },
            )
        } else {
            s1
        };
        assert(s1.inv());
        assert(s2.inv());
        lemma_defeat_keeps_invariant(s2, target, target, now);
    }
}

/// The answer to a last-stand challenge keeps the invariant.
pub proof fn lemma_last_stand_keeps_invariant(
    s: SessionView,
    from: usize,
    success: bool,
    now: u64,
    chance: Chance,
)
    requires
        s.inv(),
    ensures
        last_stand(s, from, success, now, chance).0.inv(),
{
    if last_stand_accepted(s, from) && crate::model::last_stand_won(s, from, success, chance) {
        let a = chance.anchor->Some_0;
        let b = s.player(from).grid->Some_0;
        lemma_placed_is_board(b, a.0 as int, a.1 as int, 2, true);
        lemma_placed_is_board(b, a.0 as int, a.1 as int, 2, false);
    }
}

/// An answer to the play-again question keeps the invariant.
pub proof fn lemma_play_again_keeps_invariant(s: SessionView, from: usize, wants_to_play: bool)
    requires
        s.inv(),
    ensures
        play_again(s, from, wants_to_play).0.inv(),
{
}

/// A card keeps the invariant.
pub proof fn lemma_use_card_keeps_invariant(
    s: SessionView,
    from: usize,
    card: PowerUp,
    now: u64,
    chance: Chance,
)
    requires
        s.inv(),
    ensures
        use_card(s, from, card, now, chance).0.inv(),
{
    if card_accepted(s, from, card) {
        let hand = s.player(from).hand;
        crate::cards::lemma_card_position(hand, card, 0);
        match card {
            PowerUp::Shield => {},
            PowerUp::Radar => {},
            PowerUp::Repair => {
                let b = s.player(from).grid->Some_0;
                lemma_first_repairable(b);
                if let Some(p) = crate::cards::first_repairable(b) {
                    lemma_with_cell_is_board(b, p.0 as int, p.1 as int, CellState::Ship);
                }
            },
            PowerUp::MissileStrike => {
                let target = opponent(from);
                let b = s.player(target).grid->Some_0;
                let b1 = after_missile(b, chance.first_strike);
                let b2 = after_missile(b1, chance.second_strike);
                lemma_after_missile_is_board(b, chance.first_strike);
                lemma_after_missile_is_board(b1, chance.second_strike);
                let s1 = s.with_player(
                    from,
                    crate::model::PlayerView {
                        hand: crate::cards::without_card(hand, PowerUp::MissileStrike),
                        ..s.player(from)
                    },
                );
                let s2 = s1.with_player(
                    target,
                    crate::model::PlayerView { grid: Some(b2), ..s1.player(target) },
                );
                assert(s1.inv());
                assert(s2.inv());
                lemma_defeat_keeps_invariant(s2, target, s.current_turn, now);
            },
        }
    }
}

/// Every message leaves the session in a state that satisfies the invariant:
/// in particular no hand ever holds more than five cards, whatever is drawn.
pub proof fn lemma_step_keeps_invariant(
    s: SessionView,
    from: usize,
    message: MessageView,
    now: u64,
    chance: Chance,
)
    requires
        s.inv(),
    ensures
        step(s, from, message, now, chance).0.inv(),
{
    if s.phase is Closed || from > 1 {
        return ;
    }
    match message {
        MessageView::PlaceShips(grid) => {
            lemma_place_ships_keeps_invariant(s, from, grid);
        },
        MessageView::Attack { x, y } => {
            lemma_attack_keeps_invariant(s, from, x, y, now, chance);
        },
        MessageView::LastStandResult { success } => {
            lemma_last_stand_keeps_invariant(s, from, success, now, chance);
        },
        MessageView::PlayAgainResponse { wants_to_play } => {
            lemma_play_again_keeps_invariant(s, from, wants_to_play);
        },
        MessageView::CardUsed { card, .. } => {
            lemma_use_card_keeps_invariant(s, from, card, now, chance);
        },
        MessageView::Quit => {},
        _ => {},
    }
}

/// The passing of time keeps the invariant.
pub proof fn lemma_tick_keeps_invariant(s: SessionView, now: u64)
    requires
        s.inv(),
    ensures
        tick(s, now).0.inv(),
{
}

/// No hand ever holds more than five cards, whatever is drawn and however
/// often.
pub proof fn lemma_hands_stay_within_limit(
    s: SessionView,
    from: usize,
    message: MessageView,
    now: u64,
    chance: Chance,
)
    requires
        s.inv(),
    ensures
        step(s, from, message, now, chance).0.p1.hand.len() <= MAX_HAND_SIZE,
        step(s, from, message, now, chance).0.p2.hand.len() <= MAX_HAND_SIZE,
{
    lemma_step_keeps_invariant(s, from, message, now, chance);
}

/// After a shot that was taken and that neither ended the game nor opened a
/// last stand, it is the other player's turn.
pub proof fn lemma_turn_alternates(
    s: SessionView,
    from: usize,
    x: usize,
    y: usize,
    now: u64,
    chance: Chance,
)
    requires
        s.inv(),
        attack_accepted(s, from, x, y),
        attack(s, from, x, y, now, chance).0.phase is InProgress,
    ensures
        attack(s, from, x, y, now, chance).0.current_turn == opponent(s.current_turn),
        attack(s, from, x, y, now, chance).0.current_turn != s.current_turn,
        attack(s, from, x, y, now, chance).0.current_turn <= 1,
{
}

/// The turn moves only with a shot after which play goes on, with a last
/// stand that was won, or with the reset for a new game.
pub proof fn lemma_turn_moves_only_with_play(
    s: SessionView,
    from: usize,
    message: MessageView,
    now: u64,
    chance: Chance,
)
    requires
        s.inv(),
        step(s, from, message, now, chance).0.current_turn != s.current_turn,
    ensures
        ({
            let next = step(s, from, message, now, chance).0;
            ||| (message is Attack && s.phase is InProgress && next.phase is InProgress)
            ||| (message is LastStandResult && s.phase is PendingLastStand
                && next.phase is InProgress)
            ||| (message is PlayAgainResponse && next == reset(s))
        }),
        tick(s, now).0.current_turn == s.current_turn,
{
    lemma_step_keeps_invariant(s, from, message, now, chance);
    match message {
        MessageView::CardUsed { card, .. } => {
            if card_accepted(s, from, card) {
                lemma_first_repairable(s.player(from).grid->Some_0);
            }
        },
        _ => {},
    }
}

/// None of the notices is a challenge to a last stand.
pub open spec fn no_challenge(out: Seq<OutgoingView>) -> bool {
    forall|k: int| 0 <= k < out.len() ==> !((#[trigger] out[k]).message is LastStandTrigger)
}

/// The notices challenge at most one player, once; that player had no last
/// stand before, has had one now, and is the one the session waits for.
pub open spec fn one_fair_challenge(
    s: SessionView,
    next: SessionView,
    out: Seq<OutgoingView>,
) -> bool {
    &&& forall|k: int|
        0 <= k < out.len() && (#[trigger] out[k]).message is LastStandTrigger ==> {
            &&& out[k].to <= 1
            &&& !s.player(out[k].to).last_stand_used
            &&& next.player(out[k].to).last_stand_used
            &&& next.phase is PendingLastStand
            &&& next.phase->loser == out[k].to
        }
    &&& forall|k: int, l: int|
        0 <= k < out.len() && 0 <= l < out.len() && (#[trigger] out[k]).message
            is LastStandTrigger && (#[trigger] out[l]).message is LastStandTrigger ==> k == l
}

/// A defeat challenges the loser once if the loser had no last stand, and
/// nobody otherwise.
pub proof fn lemma_defeat_challenges_fairly(
    s: SessionView,
    loser: usize,
    resume_turn: usize,
    now: u64,
)
    requires
        loser <= 1,
    ensures
        one_fair_challenge(
            s,
            defeat(s, loser, resume_turn, now).0,
            defeat(s, loser, resume_turn, now).1,
        ),
{
}

/// Notices without a challenge, sent before a fair step from a state with the
/// same last-stand flags, leave the step fair.
pub proof fn lemma_fair_after_reports(
    s: SessionView,
    mid: SessionView,
    next: SessionView,
    reports: Seq<OutgoingView>,
    out: Seq<OutgoingView>,
)
    requires
        no_challenge(reports),
        one_fair_challenge(mid, next, out),
        mid.p1.last_stand_used == s.p1.last_stand_used,
        mid.p2.last_stand_used == s.p2.last_stand_used,
    ensures
        one_fair_challenge(s, next, reports + out),
{
    let all = reports + out;
    assert forall|k: int| 0 <= k < all.len() && (#[trigger] all[k]).message
        is LastStandTrigger implies k >= reports.len() && (out[k - reports.len()]).message
        is LastStandTrigger && all[k] == out[k - reports.len()] by {
        if k < reports.len() {
            assert(all[k] == reports[k]);
        }
    }
    assert forall|k: int, l: int|
        0 <= k < all.len() && 0 <= l < all.len() && (#[trigger] all[k]).message
            is LastStandTrigger && (#[trigger] all[l]).message is LastStandTrigger implies k
        == l by {
        assert(out[k - reports.len()].message is LastStandTrigger);
        assert(out[l - reports.len()].message is LastStandTrigger);
    }
}

/// A shot challenges fairly.
pub proof fn lemma_attack_challenges_fairly(
    s: SessionView,
    from: usize,
    x: usize,
    y: usize,
    now: u64,
    chance: Chance,
)
    requires
        s.inv(),
        from <= 1,
    ensures
        one_fair_challenge(
            s,
            attack(s, from, x, y, now, chance).0,
            attack(s, from, x, y, now, chance).1,
        ),
{
    if attack_accepted(s, from, x, y) {
        let target = opponent(from);
        let b = s.player(target).grid->Some_0;
        let shield = crate::model::shielded(s.player(target), chance);
        let blocked = b[y as int][x as int] == CellState::Ship && shield;
        let b1 = crate::cards::after_shot(b, x as int, y as int, shield);
        let hit = crate::cards::shot_hits(b, x as int, y as int, shield);
        let sunk = hit && crate::board::sunk_at(b1, x as int, y as int);
        let draws = hit && s.player(from).hand.len() < MAX_HAND_SIZE;
        let s1 = s.with_player(
            target,
            crate::model::PlayerView { grid: Some(b1), shield_active: false, ..s.player(target) },
        );
        let s2 = if draws {
            s1.with_player(
                from,
                crate::model::PlayerView {
                    hand: s1.player(from).hand.push(chance.drawn),
                    ..s1.player(from)
                },
            )
        } else {
            s1
        };
        let reports = crate::model::attack_notices(
            from,
            x,
            y,
            hit,
            sunk,
            blocked && s.shield_policy == crate::model::ShieldPolicy::Silent,
            if draws {
                Some(chance.drawn)
            } else {
                None
            },
        );
        assert(no_challenge(reports));
        if crate::board::all_sunk(b1) {
            let end = defeat(s2, target, target, now);
            lemma_defeat_challenges_fairly(s2, target, target, now);
            lemma_fair_after_reports(s, s2, end.0, reports, end.1);
        } else {
            assert(no_challenge(reports + crate::model::turn_notices(target)));
        }
    }
}

/// A card challenges fairly.
pub proof fn lemma_use_card_challenges_fairly(
    s: SessionView,
    from: usize,
    card: PowerUp,
    now: u64,
    chance: Chance,
)
    requires
        s.inv(),
        from <= 1,
    ensures
        one_fair_challenge(
            s,
            use_card(s, from, card, now, chance).0,
            use_card(s, from, card, now, chance).1,
        ),
{
    if card_accepted(s, from, card) {
        match card {
            PowerUp::Shield => {},
            PowerUp::Radar => {},
            PowerUp::Repair => {},
            PowerUp::MissileStrike => {
                let target = opponent(from);
                let b = s.player(target).grid->Some_0;
                let b1 = after_missile(b, chance.first_strike);
                let b2 = after_missile(b1, chance.second_strike);
                let s1 = s.with_player(
                    from,
                    crate::model::PlayerView {
                        hand: crate::cards::without_card(
                            s.player(from).hand,
                            PowerUp::MissileStrike,
                        ),
                        ..s.player(from)
                    },
                );
                let s2 = s1.with_player(
                    target,
                    crate::model::PlayerView { grid: Some(b2), ..s1.player(target) },
                );
                let first = crate::model::missile_notices(from, b, chance.first_strike);
                let second = crate::model::missile_notices(from, b1, chance.second_strike);
                let reports = first + second + seq![
                    crate::model::notice(from, MessageView::GridUpdate { grid: b2 }),
                ];
                assert(no_challenge(first));
                assert(no_challenge(second));
                assert(no_challenge(reports));
                if crate::board::all_sunk(b2) {
                    let end = defeat(s2, target, s.current_turn, now);
                    lemma_defeat_challenges_fairly(s2, target, s.current_turn, now);
                    lemma_fair_after_reports(s, s2, end.0, reports, end.1);
                }
            },
        }
    }
}

/// A step challenges a player to a last stand at most once, and only a
/// player who had none in this life; the player has had one from then on.
/// The passing of time challenges nobody.
pub proof fn lemma_last_stand_is_offered_once(
    s: SessionView,
    from: usize,
    message: MessageView,
    now: u64,
    chance: Chance,
)
    requires
        s.inv(),
    ensures
        one_fair_challenge(
            s,
            step(s, from, message, now, chance).0,
            step(s, from, message, now, chance).1,
        ),
        no_challenge(tick(s, now).1),
{
    if s.phase is Closed || from > 1 {
        return ;
    }
    match message {
        MessageView::Attack { x, y } => {
            lemma_attack_challenges_fairly(s, from, x, y, now, chance);
        },
        MessageView::CardUsed { card, .. } => {
            lemma_use_card_challenges_fairly(s, from, card, now, chance);
        },
        _ => {},
    }
}

/// A player who has had a last stand has had it until the session is reset
/// for a new game: only a new life brings a new last stand.
pub proof fn lemma_last_stand_flag_is_kept(
    s: SessionView,
    from: usize,
    message: MessageView,
    now: u64,
    chance: Chance,
    peer: usize,
)
    requires
        s.inv(),
        s.player(peer).last_stand_used,
    ensures
        step(s, from, message, now, chance).0.player(peer).last_stand_used || (message
            is PlayAgainResponse && step(s, from, message, now, chance).0 == reset(s)),
        tick(s, now).0.player(peer).last_stand_used,
{
    match message {
        MessageView::CardUsed { card, .. } => {
            if card_accepted(s, from, card) {
                lemma_first_repairable(s.player(from).grid->Some_0);
            }
        },
        _ => {},
    }
}

/// A last stand that is not answered within its window ends as one that
/// failed: the passing of time does what the answer `success: false` of the
/// challenged player would have done.
pub proof fn lemma_missed_deadline_is_failure(s: SessionView, now: u64, chance: Chance)
    requires
        s.inv(),
        s.phase is PendingLastStand,
        elapsed(s.phase->opened_at, now) >= LAST_STAND_WINDOW_MS,
    ensures
        tick(s, now) == step(
            s,
            s.phase->loser,
            MessageView::LastStandResult { success: false },
            now,
            chance,
        ),
        tick(s, now) == game_over(s, s.phase->loser, now),
{
}

/// The negotiation agrees only when both answers are yes, declines as soon
/// as one is no, and times out when the window passes with fewer than two
/// answers. An open negotiation never holds a no.
pub proof fn lemma_play_again_resolution(
    state: PlayAgainState,
    peer: usize,
    wants_to_play: bool,
    now: u64,
)
    requires
        state is WaitingForResponses,
        state.settled() == state,
    ensures
        state.response_of(0) != Some(false) && state.response_of(1) != Some(false),
        !(state.response_of(0) is Some && state.response_of(1) is Some),
        state.after_response(peer, wants_to_play) is BothAgreed <==> {
            &&& peer <= 1
            &&& state.response_of(peer) is None
            &&& wants_to_play
            &&& state.response_of(opponent(peer)) == Some(true)
        },
        state.after_response(peer, wants_to_play) is OneDeclined <==> {
            &&& peer <= 1
            &&& state.response_of(peer) is None
            &&& !wants_to_play
        },
        state.after_response(peer, wants_to_play) is WaitingForResponses ==> state.after_response(
            peer,
            wants_to_play,
        ).settled() == state.after_response(peer, wants_to_play),
        !(state.after_response(peer, wants_to_play) is Timeout),
        state.at_time(now) is Timeout <==> elapsed(state->timeout_start, now)
            > PLAY_AGAIN_WINDOW_MS,
        !(state.at_time(now) is Timeout) ==> state.at_time(now) == state,
{
    if state.response_of(0) is Some && state.response_of(1) is Some {
        let first = state.response_of(0)->Some_0;
        let second = state.response_of(1)->Some_0;
        assert(state.response_of(0) == Some(first));
        assert(state.response_of(1) == Some(second));
        if first && second {
            assert(state.settled() is BothAgreed);
        } else {
            assert(state.settled() is OneDeclined);
        }
    }
}

/// In a session, two yeses start a new game with everything reset, one no
/// closes the session, and so does the window when it passes.
pub proof fn lemma_play_again_outcomes(s: SessionView, from: usize, wants_to_play: bool, now: u64)
    requires
        s.inv(),
        s.phase is AwaitingPlayAgain,
        from <= 1,
    ensures
        ({
            let after = s.play_again_state.after_response(from, wants_to_play);
            let next = play_again(s, from, wants_to_play).0;
            &&& after is BothAgreed ==> next == reset(s) && next.current_turn == 0
                && !next.p1.ready && !next.p2.ready && next.p1.hand.len() == 0
                && next.p2.hand.len() == 0
            &&& after is OneDeclined ==> next.phase is Closed && next.play_again_state
                is OneDeclined
            &&& after is WaitingForResponses ==> next.phase is AwaitingPlayAgain
        }),
        elapsed(s.play_again_state->timeout_start, now) > PLAY_AGAIN_WINDOW_MS ==> tick(
            s,
            now,
        ).0.phase is Closed && tick(s, now).0.play_again_state is Timeout,
{
}

/// A last stand that is won, on a grid with room for the rescue ship and with
/// a fitting choice of the cell, lets play go on: the ship is on the grid, the
/// turn is the one kept for it, and nobody is told that the game is over.
pub proof fn lemma_won_last_stand_goes_on(s: SessionView, from: usize, now: u64, chance: Chance)
    requires
        s.inv(),
        last_stand_accepted(s, from),
        crate::model::has_room(s.player(from).grid->Some_0),
        crate::model::fits(s, from, MessageView::LastStandResult { success: true }, chance),
    ensures
        ({
            let next = last_stand(s, from, true, now, chance).0;
            let out = last_stand(s, from, true, now, chance).1;
            &&& next.phase is InProgress
            &&& next.current_turn == s.phase->resume_turn
            &&& !all_sunk(next.player(from).grid->Some_0)
            &&& forall|k: int| 0 <= k < out.len() ==> !((#[trigger] out[k]).message is GameOver)
        }),
{
    let a = chance.anchor->Some_0;
    let b = s.player(from).grid->Some_0;
    let restored = crate::cards::restored_at(b, a.0 as int, a.1 as int);
    crate::cards::lemma_restorable_is_empty(b, a.0 as int, a.1 as int);
    assert(restored[a.1 as int][a.0 as int] == CellState::Ship);
}

} // verus!
