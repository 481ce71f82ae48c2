use vstd::prelude::*;

use crate::instructions::{net_of, places_valid, prize_of, prize_total};
use crate::state::{Game, GameConfig, GameType, WinnerPayout};

verus! {

/// What the vault owes across a store of game records: the sum of the
/// pots of the games that are still open.
pub open spec fn open_total(games: Seq<Game>) -> int
    decreases games.len(),
{
    if games.len() == 0 {
        0
    } else {
        open_total(games.drop_last()) + games.last().open_pot()
    }
}

/// The vault's balance covers every open game's pot.
pub open spec fn vault_covers(games: Seq<Game>, vault: int) -> bool {
    open_total(games) <= vault
}

proof fn lemma_open_total_update(games: Seq<Game>, i: int, after: Game)
    requires
        0 <= i < games.len(),
    ensures
        open_total(games.update(i, after)) == open_total(games) - games[i].open_pot()
            + after.open_pot(),
    decreases games.len(),
{
    let updated = games.update(i, after);
    if i == games.len() - 1 {
        assert(updated.drop_last() =~= games.drop_last());
    } else {
        lemma_open_total_update(games.drop_last(), i, after);
        assert(updated.drop_last() =~= games.drop_last().update(i, after));
    }
}

/// An operation on one game record keeps every open pot covered by the
/// vault, provided that record's open pot grows by no more than what the
/// operation moves into the vault less what it pays out of it.
///
/// Every instruction states the two sides of this in its contract:
/// `join_game` adds its stake to both, `admin_withdraw_player` takes a
/// stake off the pot and pays at most that stake, `admin_cancel_game`
/// closes the pot and pays at most the pot, `admin_payout_winners` closes
/// the pot and pays its prizes.
pub proof fn lemma_step_keeps_vault_covered(
    games: Seq<Game>,
    i: int,
    after: Game,
    vault: int,
    inflow: int,
    outflow: int,
)
    requires
        vault_covers(games, vault),
        0 <= i < games.len(),
        after.open_pot() - games[i].open_pot() <= inflow - outflow,
    ensures
        vault_covers(games.update(i, after), vault + inflow - outflow),
{
    lemma_open_total_update(games, i, after);
}

/// A newly created game keeps every open pot covered by the vault,
/// provided its pot is no more than what its creation moved into the
/// vault (`create_game` moves exactly its pot).
pub proof fn lemma_new_game_keeps_vault_covered(
    games: Seq<Game>,
    game: Game,
    vault: int,
    inflow: int,
)
    requires
        vault_covers(games, vault),
        game.open_pot() <= inflow,
    ensures
        vault_covers(games.push(game), vault + inflow),
{
    assert(games.push(game).drop_last() =~= games);
}

/// Paying out of the vault with no game record changing keeps every open
/// pot covered only while the payment stays within the vault's surplus
/// over the open pots.
pub proof fn lemma_withdrawal_within_surplus(games: Seq<Game>, vault: int, amount: int)
    requires
        amount <= vault - open_total(games),
    ensures
        vault_covers(games, vault - amount),
{
}

/// No two winners claim the same place.
pub open spec fn distinct_places(winners: Seq<WinnerPayout>) -> bool {
    forall|i: int, j: int|
        0 <= i < j < winners.len() ==> winners[i].place != winners[j].place
}

spec fn claims(winners: Seq<WinnerPayout>, place: int) -> bool {
    exists|i: int| 0 <= i < winners.len() && winners[i].place == place
}

spec fn share(config: GameConfig, pot: int, place: int) -> int {
    pot * config.place_percentage(place).unwrap() / 100
}

spec fn claimed_shares(config: GameConfig, pot: int, winners: Seq<WinnerPayout>) -> int {
    (if claims(winners, 1) { share(config, pot, 1) } else { 0 }) + (if claims(winners, 2) {
        share(config, pot, 2)
    } else {
        0
    }) + (if claims(winners, 3) { share(config, pot, 3) } else { 0 })
}

proof fn lemma_tournament_within_claimed(
    config: GameConfig,
    size: u8,
    pot: int,
    winners: Seq<WinnerPayout>,
    gas: int,
)
    requires
        config.wf(),
        pot >= 0,
        gas >= 0,
        places_valid(config, GameType::Tournament { size }, pot, winners),
        distinct_places(winners),
    ensures
        prize_total(config, GameType::Tournament { size }, pot, winners, gas) <= claimed_shares(
            config,
            pot,
            winners,
        ),
    decreases winners.len(),
{
    let t = GameType::Tournament { size };
    if winners.len() > 0 {
        let rest = winners.drop_last();
        let last = winners.last();
        let n = winners.len() - 1;
        assert(winners[n] == last);
        assert forall|i: int| 0 <= i < rest.len() implies (#[trigger] prize_of(
            config,
            t,
            pot,
            rest[i].place as int,
        )) is Some by {
            assert(rest[i] == winners[i]);
        }
        assert(prize_of(config, t, pot, winners[n].place as int) is Some);
        lemma_tournament_within_claimed(config, size, pot, rest, gas);
        let p = last.place as int;
        assert(!claims(rest, p)) by {
            if claims(rest, p) {
                let i = choose|i: int| 0 <= i < rest.len() && rest[i].place == p;
                assert(rest[i] == winners[i]);
            }
        }
        assert forall|q: int| q != p implies claims(winners, q) == claims(rest, q) by {
            if claims(winners, q) {
                let i = choose|i: int| 0 <= i < winners.len() && winners[i].place == q;
                assert(i != n);
                assert(rest[i] == winners[i]);
            }
            if claims(rest, q) {
                let i = choose|i: int| 0 <= i < rest.len() && rest[i].place == q;
                assert(rest[i] == winners[i]);
            }
        }
        assert(claims(winners, p));
        let prize = prize_of(config, t, pot, p).unwrap();
        assert(net_of(prize, gas) <= prize);
    }
}

/// A settlement pays out no more than the pot when the places it pays are
/// distinct in a tournament, or when a duel pays at most one winner (every
/// duel that `admin_payout_winners` settles pays exactly one); then
/// `admin_payout_winners`, which closes the pot, keeps every open pot
/// covered by the vault.
pub proof fn lemma_payout_within_pot(
    config: GameConfig,
    game_type: GameType,
    pot: int,
    winners: Seq<WinnerPayout>,
    gas: int,
)
    requires
        config.wf(),
        pot >= 0,
        gas >= 0,
        places_valid(config, game_type, pot, winners),
        match game_type {
            GameType::OneVsOne => winners.len() <= 1,
            GameType::Tournament { .. } => distinct_places(winners),
        },
    ensures
        prize_total(config, game_type, pot, winners, gas) <= pot,
{
    match game_type {
        GameType::OneVsOne => {
            if winners.len() == 1 {
                assert(winners.drop_last().len() == 0);
                assert(winners[0] == winners.last());
                assert(prize_of(config, game_type, pot, winners[0].place as int) is Some);
                reveal_with_fuel(prize_total, 2);
            }
        },
        GameType::Tournament { size } => {
            lemma_tournament_within_claimed(config, size, pot, winners, gas);
            let a = config.first_place_percentage as int;
            let b = config.second_place_percentage as int;
            let c = config.third_place_percentage as int;
            assert(pot * a / 100 + pot * b / 100 + pot * c / 100 <= pot) by (nonlinear_arith)
                requires
                    a >= 0,
                    b >= 0,
                    c >= 0,
                    a + b + c == 100,
                    pot >= 0,
            ;
        },
    }
}

} // verus!
