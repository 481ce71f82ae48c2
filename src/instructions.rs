use vstd::prelude::*;

use crate::accounts::{
    AdminCancelGame, AdminEmergencyWithdraw, AdminPayoutWinners, AdminWithdrawPlayer, CreateGame,
    Initialize, JoinGame, UpdateConfig,
};
use crate::events::{
    payouts_total, EmergencyWithdraw, GameCancelled, GameCompleted, GameCreated, GameError,
    GameStarted, Payout, PlayerJoined, PlayerWithdrawn, StakeCharge,
};
use crate::state::{
    fee_of, has_player, lemma_pot_uniform, pot_of, valid_fee_bps, valid_split, Game, GameConfig,
    GameStatus, GameTier, GameType, PlayerStake, Pubkey, WinnerPayout, MAX_STAKE,
};

verus! {

/// The keys of a roster, in order.
pub open spec fn keys_of(players: Seq<PlayerStake>) -> Seq<Pubkey> {
    players.map_values(|p: PlayerStake| p.player)
}

/// Two records of the same game: everything but roster, pot and status agrees.
pub open spec fn same_game(a: Game, b: Game) -> bool {
    &&& a.id == b.id
    &&& a.creator == b.creator
    &&& a.game_type == b.game_type
    &&& a.tier == b.tier
    &&& a.stake_per_player == b.stake_per_player
    &&& a.max_players == b.max_players
    &&& a.created_at == b.created_at
    &&& a.bump == b.bump
}

/// `b` is `a` with only its status changed to `status`.
pub open spec fn with_status(a: Game, b: Game, status: GameStatus) -> bool {
    &&& same_game(a, b)
    &&& b.players@ == a.players@
    &&& b.total_pot == a.total_pot
    &&& b.status == status
}

/// `stake` less `gas`, floored at zero.
pub open spec fn net_of(stake: int, gas: int) -> int {
    if stake > gas {
        stake - gas
    } else {
        0
    }
}

/// The fee on `stake` at `fee_bps`, computed in a wide integer.
pub fn compute_fee(stake: u64, fee_bps: u16) -> (r: u64)
    requires
        valid_fee_bps(fee_bps as int),
    ensures
        r == fee_of(stake as int, fee_bps as int),
        r <= stake,
{
    proof {
        assert(stake as int * fee_bps as int <= 0xFFFF_FFFF_FFFF_FFFF * 0xFFFF) by (nonlinear_arith)
            requires
                stake <= 0xFFFF_FFFF_FFFF_FFFFu64,
                fee_bps <= 0xFFFFu16,
        ;
    }
    let wide: u128 = stake as u128 * fee_bps as u128 / 10000;
    proof {
        assert(stake as int * fee_bps as int <= stake as int * 10000) by (nonlinear_arith)
            requires
                fee_bps as int <= 10000,
        ;
        assert(stake as int * fee_bps as int / 10000 <= stake as int) by (nonlinear_arith)
            requires
                stake as int * fee_bps as int <= stake as int * 10000,
        ;
    }
    wide as u64
}

/// Sets up the configuration record.
pub fn initialize(
    ctx: &Initialize,
    fee_bps: u16,
    first_place_percentage: u8,
    second_place_percentage: u8,
    third_place_percentage: u8,
) -> (r: Result<GameConfig, GameError>)
    ensures
        !valid_fee_bps(fee_bps as int) ==> r == Err::<GameConfig, GameError>(
            GameError::InvalidFeeBps,
        ),
        valid_fee_bps(fee_bps as int) && !valid_split(
            first_place_percentage as int,
            second_place_percentage as int,
            third_place_percentage as int,
        ) ==> r == Err::<GameConfig, GameError>(GameError::InvalidPrizeDistribution),
        valid_fee_bps(fee_bps as int) && valid_split(
            first_place_percentage as int,
            second_place_percentage as int,
            third_place_percentage as int,
        ) ==> r == Ok::<GameConfig, GameError>(
            (GameConfig {
                admin: ctx.admin,
                fee_receiver: ctx.fee_receiver,
                fee_bps,
                first_place_percentage,
                second_place_percentage,
                third_place_percentage,
                next_game_id: 1,
                bump: ctx.config_bump,
            }),
        ),
        r matches Ok(c) ==> c.wf(),
{
    if fee_bps > 10000 {
        return Err(GameError::InvalidFeeBps);
    }
    let sum: u16 = first_place_percentage as u16 + second_place_percentage as u16
        + third_place_percentage as u16;
    if sum != 100 {
        return Err(GameError::InvalidPrizeDistribution);
    }
    Ok(
        GameConfig {
            admin: ctx.admin,
            fee_receiver: ctx.fee_receiver,
            fee_bps,
            first_place_percentage,
            second_place_percentage,
            third_place_percentage,
            next_game_id: 1,
            bump: ctx.config_bump,
        },
    )
}

/// Opens a new game with the creator as its only entry, takes the next id,
/// and says what the creator pays. `now` is the ledger clock's time.
pub fn create_game(
    ctx: &CreateGame,
    config: &mut GameConfig,
    game_type: GameType,
    tier: GameTier,
    now: i64,
) -> (r: Result<(Game, StakeCharge, GameCreated), GameError>)
    requires
        old(config).wf(),
        old(config).next_game_id < u64::MAX,
    ensures
        ({
            let stake = tier.spec_lamports() as int;
            let fee = fee_of(stake, old(config).fee_bps as int);
            let c0 = ctx.fee_receiver.bytes@ != old(config).fee_receiver.bytes@;
            let c1 = game_type.spec_max_players() == 0;
            let c2 = ctx.creator_lamports < stake + fee;
            &&& c0 <==> r == Err::<(Game, StakeCharge, GameCreated), GameError>(
                GameError::InvalidFeeReceiver,
            )
            &&& (!c0 && c1) <==> r == Err::<(Game, StakeCharge, GameCreated), GameError>(
                GameError::GameFull,
            )
            &&& (!c0 && !c1 && c2) <==> r == Err::<(Game, StakeCharge, GameCreated), GameError>(
                GameError::InsufficientFunds,
            )
            &&& (!c0 && !c1 && !c2) <==> r is Ok
            &&& r is Err ==> *final(config) == *old(config)
            &&& r matches Ok((game, charge, event)) ==> {
                &&& *final(config) == (GameConfig {
                    next_game_id: (old(config).next_game_id + 1) as u64,
                    ..*old(config)
                })
                &&& game.wf()
                &&& game.id == old(config).next_game_id
                &&& game.creator == ctx.creator
                &&& game.game_type == game_type
                &&& game.tier == tier
                &&& game.stake_per_player == stake
                &&& game.max_players == game_type.spec_max_players()
                &&& game.status == GameStatus::WaitingForPlayers
                &&& game.players@ == seq![
                    PlayerStake { player: ctx.creator, amount: stake as u64, joined_at: now },
                ]
                &&& game.total_pot == stake
                &&& game.created_at == now
                &&& game.bump == ctx.game_bump
                &&& charge.stake == stake
                &&& charge.fee == fee
                &&& charge.fee_receiver == old(config).fee_receiver
                &&& game.open_pot() == charge.stake
                &&& event.game_id == game.id
                &&& event.creator == game.creator
                &&& event.game_type == game.game_type
                &&& event.tier == game.tier
                &&& event.stake_amount == game.stake_per_player
            }
        }),
{
    if ctx.fee_receiver != config.fee_receiver {
        return Err(GameError::InvalidFeeReceiver);
    }
    if game_type.max_players() == 0 {
        return Err(GameError::GameFull);
    }
    let stake_amount = tier.to_lamports();
    let fee_amount = compute_fee(stake_amount, config.fee_bps);
    let total_cost = stake_amount + fee_amount;
    if ctx.creator_lamports < total_cost {
        return Err(GameError::InsufficientFunds);
    }
    let mut players: Vec<PlayerStake> = Vec::new();
    players.push(PlayerStake { player: ctx.creator, amount: stake_amount, joined_at: now });
    let game = Game {
        id: config.next_game_id,
        creator: ctx.creator,
        game_type,
        tier,
        stake_per_player: stake_amount,
        max_players: game_type.max_players(),
        status: GameStatus::WaitingForPlayers,
        players,
        total_pot: stake_amount,
        created_at: now,
        bump: ctx.game_bump,
    };
    proof {
        assert(game.players@.drop_last() =~= Seq::<PlayerStake>::empty());
        assert(game.players@.last() == game.players@[0]);
        reveal_with_fuel(pot_of, 2);
        assert(pot_of(game.players@) == stake_amount);
    }
    config.next_game_id = config.next_game_id + 1;
    let event = GameCreated {
        game_id: game.id,
        creator: ctx.creator,
        game_type,
        tier,
        stake_amount,
    };
    let charge = StakeCharge { stake: stake_amount, fee: fee_amount, fee_receiver: config.fee_receiver };
    Ok((game, charge, event))
}

/// Whether `key` already holds a seat in `players`.
pub fn roster_contains(players: &Vec<PlayerStake>, key: &Pubkey) -> (r: bool)
    ensures
        r == has_player(players@, *key),
{
    let mut i: usize = 0;
    while i < players.len()
        invariant
            i <= players@.len(),
            forall|j: int| 0 <= j < i ==> players@[j].player.bytes@ != key.bytes@,
        decreases players@.len() - i,
    {
        if players[i].player == *key {
            return true;
        }
        i = i + 1;
    }
    false
}

/// The keys of the roster, in seat order.
pub fn roster_keys(players: &Vec<PlayerStake>) -> (r: Vec<Pubkey>)
    ensures
        r@ == keys_of(players@),
{
    let mut keys: Vec<Pubkey> = Vec::new();
    let mut i: usize = 0;
    while i < players.len()
        invariant
            i <= players@.len(),
            keys@ == keys_of(players@.take(i as int)),
        decreases players@.len() - i,
    {
        keys.push(players[i].player);
        proof {
            assert(players@.take(i + 1) =~= players@.take(i as int).push(players@[i as int]));
        }
        i = i + 1;
        proof {
            assert(keys@ =~= keys_of(players@.take(i as int)));
        }
    }
    proof {
        assert(players@.take(i as int) =~= players@);
    }
    keys
}

/// Seats the signer in an open game; the game starts once every seat is
/// taken. `now` is the ledger clock's time.
pub fn join_game(
    ctx: &JoinGame,
    config: &GameConfig,
    game: &mut Game,
    game_id: u64,
    now: i64,
) -> (r: Result<(StakeCharge, PlayerJoined, Option<GameStarted>), GameError>)
    requires
        config.wf(),
        old(game).wf(),
    ensures
        ({
            let g = *old(game);
            let stake = g.stake_per_player as int;
            let fee = fee_of(stake, config.fee_bps as int);
            let bad_id = g.id != game_id;
            let not_open = g.status != GameStatus::WaitingForPlayers;
            let full = g.players@.len() >= g.max_players;
            let dup = has_player(g.players@, ctx.player);
            let stranger = ctx.fee_receiver.bytes@ != config.fee_receiver.bytes@;
            let poor = ctx.player_lamports < stake + fee;
            &&& bad_id <==> r == Err::<(StakeCharge, PlayerJoined, Option<GameStarted>), GameError>(
                GameError::InvalidGameId,
            )
            &&& (!bad_id && not_open) <==> r == Err::<
                (StakeCharge, PlayerJoined, Option<GameStarted>),
                GameError,
            >(GameError::GameNotJoinable)
            &&& (!bad_id && !not_open && full) <==> r == Err::<
                (StakeCharge, PlayerJoined, Option<GameStarted>),
                GameError,
            >(GameError::GameFull)
            &&& (!bad_id && !not_open && !full && dup) <==> r == Err::<
                (StakeCharge, PlayerJoined, Option<GameStarted>),
                GameError,
            >(GameError::AlreadyInThisGame)
            &&& (!bad_id && !not_open && !full && !dup && stranger) <==> r == Err::<
                (StakeCharge, PlayerJoined, Option<GameStarted>),
                GameError,
            >(GameError::InvalidFeeReceiver)
            &&& (!bad_id && !not_open && !full && !dup && !stranger && poor) <==> r == Err::<
                (StakeCharge, PlayerJoined, Option<GameStarted>),
                GameError,
            >(GameError::InsufficientFunds)
            &&& (!bad_id && !not_open && !full && !dup && !stranger && !poor) <==> r is Ok
            &&& r is Err ==> *final(game) == g
            &&& r matches Ok((charge, joined, started)) ==> {
                let n = g.players@.len() + 1;
                &&& final(game).wf()
                &&& same_game(g, *final(game))
                &&& final(game).players@ == g.players@.push(
                    PlayerStake { player: ctx.player, amount: g.stake_per_player, joined_at: now },
                )
                &&& final(game).total_pot == g.total_pot + stake
                &&& final(game).status == (if n == g.max_players {
                    GameStatus::Active
                } else {
                    GameStatus::WaitingForPlayers
                })
                &&& charge.stake == stake
                &&& charge.fee == fee
                &&& charge.fee_receiver == config.fee_receiver
                &&& final(game).open_pot() == g.open_pot() + charge.stake
                &&& g.status.may_become(final(game).status)
                &&& joined.game_id == final(game).id
                &&& joined.player == ctx.player
                &&& joined.players_count == final(game).players@.len()
                &&& started is Some == (final(game).status == GameStatus::Active)
                &&& started matches Some(s) ==> s.game_id == final(game).id && s.players@
                    == keys_of(final(game).players@)
            }
        }),
{
    if game.id != game_id {
        return Err(GameError::InvalidGameId);
    }
    if game.status != GameStatus::WaitingForPlayers {
        return Err(GameError::GameNotJoinable);
    }
    if game.players.len() >= game.max_players as usize {
        return Err(GameError::GameFull);
    }
    if roster_contains(&game.players, &ctx.player) {
        return Err(GameError::AlreadyInThisGame);
    }
    if ctx.fee_receiver != config.fee_receiver {
        return Err(GameError::InvalidFeeReceiver);
    }
    let stake_amount = game.stake_per_player;
    let fee_amount = compute_fee(stake_amount, config.fee_bps);
    let total_cost = stake_amount + fee_amount;
    if ctx.player_lamports < total_cost {
        return Err(GameError::InsufficientFunds);
    }
    let ghost before = game.players@;
    proof {
        lemma_pot_uniform(before, stake_amount as int);
        assert(before.len() * stake_amount <= 254 * MAX_STAKE) by (nonlinear_arith)
            requires
                before.len() <= 254,
                stake_amount <= MAX_STAKE,
        ;
    }
    game.players.push(PlayerStake { player: ctx.player, amount: stake_amount, joined_at: now });
    game.total_pot = game.total_pot + stake_amount;
    proof {
        assert(game.players@.drop_last() =~= before);
        assert forall|a: int, b: int| 0 <= a < b < game.players@.len() implies game.players@[a].player.bytes@
            != game.players@[b].player.bytes@ by {
            assert(game.players@[a] == before[a]);
            if b < before.len() {
                assert(game.players@[b] == before[b]);
            }
        }
    }
    let count = game.players.len();
    let started = if count == game.max_players as usize {
        game.status = GameStatus::Active;
        let players = roster_keys(&game.players);
        Some(GameStarted { game_id: game.id, players })
    } else {
        None
    };
    let joined = PlayerJoined { game_id: game.id, player: ctx.player, players_count: count as u8 };
    let charge = StakeCharge { stake: stake_amount, fee: fee_amount, fee_receiver: config.fee_receiver };
    Ok((charge, joined, started))
}

/// `i` is the first seat of the roster held by `key`.
pub open spec fn first_seat(players: Seq<PlayerStake>, key: Pubkey, i: int) -> bool {
    &&& 0 <= i < players.len()
    &&& players[i].player.bytes@ == key.bytes@
    &&& forall|j: int| 0 <= j < i ==> players[j].player.bytes@ != key.bytes@
}

/// `i` is the first position of `key` among the supplied accounts.
pub open spec fn first_account(accounts: Seq<Pubkey>, key: Pubkey, i: int) -> bool {
    &&& 0 <= i < accounts.len()
    &&& accounts[i].bytes@ == key.bytes@
    &&& forall|j: int| 0 <= j < i ==> accounts[j].bytes@ != key.bytes@
}

pub open spec fn has_account(accounts: Seq<Pubkey>, key: Pubkey) -> bool {
    exists|i: int| 0 <= i < accounts.len() && accounts[i].bytes@ == key.bytes@
}

/// The supplied accounts start with exactly the keys `keys`, in order.
pub open spec fn accounts_line_up(accounts: Seq<Pubkey>, keys: Seq<Pubkey>) -> bool {
    &&& keys.len() <= accounts.len()
    &&& forall|i: int| 0 <= i < keys.len() ==> accounts[i].bytes@ == keys[i].bytes@
}

/// A single debit of the vault to `recipient`, the supplied account at `index`.
pub open spec fn payout_to(p: Payout, index: int, recipient: Pubkey, amount: int) -> bool {
    p.index == index && p.recipient == recipient && p.amount == amount
}

/// Whether the supplied accounts start with exactly `keys`, in order.
pub fn accounts_match(accounts: &Vec<Pubkey>, keys: &Vec<Pubkey>) -> (r: bool)
    ensures
        r == accounts_line_up(accounts@, keys@),
{
    if accounts.len() < keys.len() {
        return false;
    }
    let mut i: usize = 0;
    while i < keys.len()
        invariant
            i <= keys@.len() <= accounts@.len(),
            forall|j: int| 0 <= j < i ==> accounts@[j].bytes@ == keys@[j].bytes@,
        decreases keys@.len() - i,
    {
        if accounts[i] != keys[i] {
            return false;
        }
        i = i + 1;
    }
    true
}

/// Where the first seat held by `key` is, if any.
pub fn find_seat(players: &Vec<PlayerStake>, key: &Pubkey) -> (r: Option<usize>)
    ensures
        r matches Some(i) ==> first_seat(players@, *key, i as int),
        r is None ==> !has_player(players@, *key),
{
    let mut i: usize = 0;
    while i < players.len()
        invariant
            i <= players@.len(),
            forall|j: int| 0 <= j < i ==> players@[j].player.bytes@ != key.bytes@,
        decreases players@.len() - i,
    {
        if players[i].player == *key {
            return Some(i);
        }
        i = i + 1;
    }
    None
}

/// Where `key` first appears among the supplied accounts, if at all.
pub fn find_account(accounts: &Vec<Pubkey>, key: &Pubkey) -> (r: Option<usize>)
    ensures
        r matches Some(i) ==> first_account(accounts@, *key, i as int),
        r is None ==> !has_account(accounts@, *key),
{
    let mut i: usize = 0;
    while i < accounts.len()
        invariant
            i <= accounts@.len(),
            forall|j: int| 0 <= j < i ==> accounts@[j].bytes@ != key.bytes@,
        decreases accounts@.len() - i,
    {
        if accounts[i] == *key {
            return Some(i);
        }
        i = i + 1;
    }
    None
}

/// `stake` less `gas`, never below zero.
pub fn net_amount(stake: u64, gas: u64) -> (r: u64)
    ensures
        r == net_of(stake as int, gas as int),
{
    stake.saturating_sub(gas)
}

/// Takes one player out of a game that has not started and refunds their
/// stake less the gas fee.
pub fn admin_withdraw_player(
    ctx: &AdminWithdrawPlayer,
    config: &GameConfig,
    game: &mut Game,
    game_id: u64,
    player_pubkey: Pubkey,
    gas_fee: u64,
) -> (r: Result<(Payout, PlayerWithdrawn), GameError>)
    requires
        old(game).wf(),
    ensures
        ({
            let g = *old(game);
            let refund = net_of(g.stake_per_player as int, gas_fee as int);
            let c0 = ctx.admin.bytes@ != config.admin.bytes@;
            let c1 = g.id != game_id;
            let c2 = g.status != GameStatus::WaitingForPlayers;
            let c3 = !has_player(g.players@, player_pubkey);
            let c4 = !has_account(ctx.remaining_accounts@, player_pubkey);
            let c5 = ctx.vault_lamports < refund;
            &&& c0 <==> r == Err::<(Payout, PlayerWithdrawn), GameError>(
                GameError::UnauthorizedAccess,
            )
            &&& (!c0 && c1) <==> r == Err::<(Payout, PlayerWithdrawn), GameError>(
                GameError::InvalidGameId,
            )
            &&& (!c0 && !c1 && c2) <==> r == Err::<(Payout, PlayerWithdrawn), GameError>(
                GameError::GameAlreadyStarted,
            )
            &&& (!c0 && !c1 && !c2 && c3) <==> r == Err::<(Payout, PlayerWithdrawn), GameError>(
                GameError::PlayerNotInGame,
            )
            &&& (!c0 && !c1 && !c2 && !c3 && c4) <==> r == Err::<
                (Payout, PlayerWithdrawn),
                GameError,
            >(GameError::MissingPlayerAccount)
            &&& (!c0 && !c1 && !c2 && !c3 && !c4 && c5) <==> r == Err::<
                (Payout, PlayerWithdrawn),
                GameError,
            >(GameError::InsufficientVaultBalance)
            &&& (!c0 && !c1 && !c2 && !c3 && !c4 && !c5) <==> r is Ok
            &&& r is Err ==> *final(game) == g
            &&& r matches Ok((payout, event)) ==> {
                &&& final(game).wf()
                &&& same_game(g, *final(game))
                &&& final(game).status == g.status
                &&& !has_player(final(game).players@, player_pubkey)
                &&& exists|i: int|
                    first_seat(g.players@, player_pubkey, i) && final(game).players@
                        == g.players@.remove(i)
                &&& final(game).total_pot == g.total_pot - g.stake_per_player
                &&& first_account(ctx.remaining_accounts@, player_pubkey, payout.index as int)
                &&& payout.recipient == player_pubkey
                &&& payout.amount == refund
                &&& payout.amount <= g.stake_per_player
                &&& final(game).open_pot() == g.open_pot() - g.stake_per_player
                &&& event.game_id == final(game).id
                &&& event.player == player_pubkey
                &&& event.refund_amount == payout.amount
            }
        }),
{
    if ctx.admin != config.admin {
        return Err(GameError::UnauthorizedAccess);
    }
    if game.id != game_id {
        return Err(GameError::InvalidGameId);
    }
    if game.status != GameStatus::WaitingForPlayers {
        return Err(GameError::GameAlreadyStarted);
    }
    let seat = match find_seat(&game.players, &player_pubkey) {
        Some(i) => i,
        None => {
            return Err(GameError::PlayerNotInGame);
        },
    };
    let index = match find_account(&ctx.remaining_accounts, &player_pubkey) {
        Some(i) => i,
        None => {
            return Err(GameError::MissingPlayerAccount);
        },
    };
    let refund_amount = net_amount(game.stake_per_player, gas_fee);
    if ctx.vault_lamports < refund_amount {
        return Err(GameError::InsufficientVaultBalance);
    }
    let ghost before = game.players@;
    let stake = game.stake_per_player;
    proof {
        lemma_pot_uniform(before, stake as int);
        assert(before[seat as int].amount == stake);
    }
    let removed = game.players.remove(seat);
    proof {
        assert forall|j: int| 0 <= j < game.players@.len() implies #[trigger] game.players@[j].amount
            == stake by {
            if j < seat {
                assert(game.players@[j] == before[j]);
            } else {
                assert(game.players@[j] == before[j + 1]);
            }
        }
        lemma_pot_uniform(game.players@, stake as int);
        assert(before.len() * stake - stake == (before.len() - 1) * stake) by (nonlinear_arith);
    }
    game.total_pot = game.total_pot - removed.amount;
    let event = PlayerWithdrawn {
        game_id: game.id,
        player: player_pubkey,
        refund_amount,
    };
    Ok((Payout { index, recipient: player_pubkey, amount: refund_amount }, event))
}

/// The refunds a cancellation owes: every seat, in order, its stake less
/// the gas fee, to the supplied account at the same position.
pub open spec fn refunds_owed(players: Seq<PlayerStake>, payouts: Seq<Payout>, gas: int) -> bool {
    &&& payouts.len() == players.len()
    &&& forall|i: int|
        0 <= i < players.len() ==> payout_to(
            #[trigger] payouts[i],
            i,
            players[i].player,
            net_of(players[i].amount as int, gas),
        )
}

proof fn lemma_payouts_total_push(payouts: Seq<Payout>, p: Payout)
    ensures
        payouts_total(payouts.push(p)) == payouts_total(payouts) + p.amount,
{
    assert(payouts.push(p).drop_last() =~= payouts);
}

/// Sum of the refunds owed to the first `n` seats.
pub open spec fn refund_total(players: Seq<PlayerStake>, gas: int) -> int
    decreases players.len(),
{
    if players.len() == 0 {
        0
    } else {
        refund_total(players.drop_last(), gas) + net_of(players.last().amount as int, gas)
    }
}

/// Cancels a game that is still open and refunds every seat its stake
/// less the gas fee.
pub fn admin_cancel_game(
    ctx: &AdminCancelGame,
    config: &GameConfig,
    game: &mut Game,
    game_id: u64,
    gas_fee_per_player: u64,
) -> (r: Result<(Vec<Payout>, GameCancelled), GameError>)
    requires
        old(game).wf(),
    ensures
        ({
            let g = *old(game);
            let c0 = ctx.admin.bytes@ != config.admin.bytes@;
            let c1 = g.id != game_id;
            let c2 = g.status == GameStatus::Cancelled;
            let c3 = g.status == GameStatus::Completed;
            let c4 = !accounts_line_up(ctx.remaining_accounts@, keys_of(g.players@));
            let c5 = ctx.vault_lamports < refund_total(g.players@, gas_fee_per_player as int);
            &&& c0 <==> r == Err::<(Vec<Payout>, GameCancelled), GameError>(
                GameError::UnauthorizedAccess,
            )
            &&& (!c0 && c1) <==> r == Err::<(Vec<Payout>, GameCancelled), GameError>(
                GameError::InvalidGameId,
            )
            &&& (!c0 && !c1 && c2) <==> r == Err::<(Vec<Payout>, GameCancelled), GameError>(
                GameError::GameAlreadyCancelled,
            )
            &&& (!c0 && !c1 && c3) <==> r == Err::<(Vec<Payout>, GameCancelled), GameError>(
                GameError::GameNotActive,
            )
            &&& (!c0 && !c1 && !c2 && !c3 && c4) <==> r == Err::<
                (Vec<Payout>, GameCancelled),
                GameError,
            >(GameError::MissingPlayerAccount)
            &&& (!c0 && !c1 && !c2 && !c3 && !c4 && c5) <==> r == Err::<
                (Vec<Payout>, GameCancelled),
                GameError,
            >(GameError::InsufficientVaultBalance)
            &&& (!c0 && !c1 && !c2 && !c3 && !c4 && !c5) <==> r is Ok
            &&& r is Err ==> *final(game) == g
            &&& r matches Ok((payouts, event)) ==> {
                &&& final(game).wf()
                &&& with_status(g, *final(game), GameStatus::Cancelled)
                &&& refunds_owed(g.players@, payouts@, gas_fee_per_player as int)
                &&& payouts_total(payouts@) == refund_total(g.players@, gas_fee_per_player as int)
                &&& g.status.may_become(final(game).status)
                &&& final(game).open_pot() == 0
                &&& payouts_total(payouts@) <= g.open_pot()
                &&& event.game_id == final(game).id
                &&& event.refunded_players == final(game).players@.len()
            }
        }),
{
    if ctx.admin != config.admin {
        return Err(GameError::UnauthorizedAccess);
    }
    if game.id != game_id {
        return Err(GameError::InvalidGameId);
    }
    if game.status == GameStatus::Cancelled {
        return Err(GameError::GameAlreadyCancelled);
    }
    if game.status == GameStatus::Completed {
        return Err(GameError::GameNotActive);
    }
    let keys = roster_keys(&game.players);
    if !accounts_match(&ctx.remaining_accounts, &keys) {
        return Err(GameError::MissingPlayerAccount);
    }
    let n = game.players.len();
    let mut payouts: Vec<Payout> = Vec::new();
    let mut total: u64 = 0;
    let mut i: usize = 0;
    while i < n
        invariant
            n == game.players@.len(),
            i <= n,
            *game == *old(game),
            ctx.admin.bytes@ == config.admin.bytes@,
            game.id == game_id,
            game.status.is_open(),
            accounts_line_up(ctx.remaining_accounts@, keys_of(game.players@)),
            total == payouts_total(payouts@),
            total == refund_total(game.players@.take(i as int), gas_fee_per_player as int),
            total <= ctx.vault_lamports,
            refunds_owed(game.players@.take(i as int), payouts@, gas_fee_per_player as int),
        decreases n - i,
    {
        let stake = game.players[i];
        let amount = net_amount(stake.amount, gas_fee_per_player);
        proof {
            let pre = game.players@.take(i as int);
            assert(game.players@.take(i + 1).drop_last() =~= pre);
            assert(game.players@.take(i + 1).last() == stake);
            lemma_refund_total_mono(game.players@, i + 1, gas_fee_per_player as int);
        }
        if ctx.vault_lamports - total < amount {
            proof {
                let gas = gas_fee_per_player as int;
                assert(refund_total(game.players@.take(i + 1), gas) == total + amount);
                assert(refund_total(game.players@.take(i + 1), gas) <= refund_total(
                    game.players@,
                    gas,
                ));
            }
            return Err(GameError::InsufficientVaultBalance);
        }
        let ghost before = payouts@;
        payouts.push(Payout { index: i, recipient: stake.player, amount });
        proof {
            lemma_payouts_total_push(before, Payout { index: i, recipient: stake.player, amount });
        }
        total = total + amount;
        i = i + 1;
    }
    proof {
        assert(game.players@.take(n as int) =~= game.players@);
        lemma_refunds_within_pot(game.players@, gas_fee_per_player as int);
    }
    game.status = GameStatus::Cancelled;
    let event = GameCancelled { game_id: game.id, refunded_players: n as u8 };
    Ok((payouts, event))
}

/// No refund exceeds its stake, so refunds never exceed the pot.
proof fn lemma_refunds_within_pot(players: Seq<PlayerStake>, gas: int)
    requires
        gas >= 0,
    ensures
        refund_total(players, gas) <= pot_of(players),
    decreases players.len(),
{
    if players.len() > 0 {
        lemma_refunds_within_pot(players.drop_last(), gas);
    }
}

/// Refunds owed to a prefix of the roster never exceed those owed to a
/// longer prefix.
proof fn lemma_refund_total_mono(players: Seq<PlayerStake>, k: int, gas: int)
    requires
        0 <= k <= players.len(),
    ensures
        refund_total(players.take(k), gas) <= refund_total(players, gas),
    decreases players.len() - k,
{
    if k < players.len() {
        lemma_refund_total_mono(players, k + 1, gas);
        assert(players.take(k + 1).drop_last() =~= players.take(k));
    } else {
        assert(players.take(k) =~= players);
    }
}

/// The prize for finishing in `place`: the whole pot in a duel, the
/// place's share of the original pot (rounded down) in a tournament, and
/// nothing for a place that is not paid.
pub open spec fn prize_of(config: GameConfig, game_type: GameType, pot: int, place: int) -> Option<
    int,
> {
    match game_type {
        GameType::OneVsOne => Some(pot),
        GameType::Tournament { .. } => match config.place_percentage(place) {
            Some(pct) => Some(pot * pct / 100),
            None => None,
        },
    }
}

/// Every winner's place earns a prize.
pub open spec fn places_valid(
    config: GameConfig,
    game_type: GameType,
    pot: int,
    winners: Seq<WinnerPayout>,
) -> bool {
    forall|i: int|
        0 <= i < winners.len() ==> (#[trigger] prize_of(config, game_type, pot, winners[i].place as int)) is Some
}

/// The keys of a list of winners, in order.
pub open spec fn winner_keys(winners: Seq<WinnerPayout>) -> Seq<Pubkey> {
    winners.map_values(|w: WinnerPayout| w.player)
}

/// What a winner is paid: the prize for their place less the gas fee.
pub open spec fn winner_net(
    config: GameConfig,
    game_type: GameType,
    pot: int,
    w: WinnerPayout,
    gas: int,
) -> int {
    net_of(prize_of(config, game_type, pot, w.place as int).unwrap(), gas)
}

/// The payouts a settlement owes: every winner, in order, to the supplied
/// account at the same position.
pub open spec fn prizes_owed(
    config: GameConfig,
    game_type: GameType,
    pot: int,
    winners: Seq<WinnerPayout>,
    payouts: Seq<Payout>,
    gas: int,
) -> bool {
    &&& payouts.len() == winners.len()
    &&& forall|i: int|
        0 <= i < winners.len() ==> payout_to(
            #[trigger] payouts[i],
            i,
            winners[i].player,
            winner_net(config, game_type, pot, winners[i], gas),
        )
}

/// Sum of what a list of winners is paid.
pub open spec fn prize_total(
    config: GameConfig,
    game_type: GameType,
    pot: int,
    winners: Seq<WinnerPayout>,
    gas: int,
) -> int
    decreases winners.len(),
{
    if winners.len() == 0 {
        0
    } else {
        prize_total(config, game_type, pot, winners.drop_last(), gas) + winner_net(
            config,
            game_type,
            pot,
            winners.last(),
            gas,
        )
    }
}

proof fn lemma_prize_total_mono(
    config: GameConfig,
    game_type: GameType,
    pot: int,
    winners: Seq<WinnerPayout>,
    k: int,
    gas: int,
)
    requires
        0 <= k <= winners.len(),
    ensures
        prize_total(config, game_type, pot, winners.take(k), gas) <= prize_total(
            config,
            game_type,
            pot,
            winners,
            gas,
        ),
    decreases winners.len() - k,
{
    if k < winners.len() {
        lemma_prize_total_mono(config, game_type, pot, winners, k + 1, gas);
        assert(winners.take(k + 1).drop_last() =~= winners.take(k));
    } else {
        assert(winners.take(k) =~= winners);
    }
}

/// The prize for `place` out of `pot`, computed in a wide integer.
pub fn prize_amount(config: &GameConfig, game_type: &GameType, pot: u64, place: u8) -> (r: Option<
    u64,
>)
    requires
        config.wf(),
    ensures
        r is Some == prize_of(*config, *game_type, pot as int, place as int) is Some,
        r matches Some(v) ==> prize_of(*config, *game_type, pot as int, place as int) == Some(
            v as int,
        ),
        r matches Some(v) ==> v <= pot,
{
    match game_type {
        GameType::OneVsOne => Some(pot),
        GameType::Tournament { .. } => {
            let pct: u8 = if place == 1 {
                config.first_place_percentage
            } else if place == 2 {
                config.second_place_percentage
            } else if place == 3 {
                config.third_place_percentage
            } else {
                return None;
            };
            proof {
                assert(pot as int * pct as int <= pot as int * 100) by (nonlinear_arith)
                    requires
                        pct <= 100,
                ;
                assert(pot as int * pct as int / 100 <= pot as int) by (nonlinear_arith)
                    requires
                        pot as int * pct as int <= pot as int * 100,
                ;
            }
            Some((pot as u128 * pct as u128 / 100) as u64)
        },
    }
}

/// Pays the winners of an active game and completes it.
pub fn admin_payout_winners(
    ctx: &AdminPayoutWinners,
    config: &GameConfig,
    game: &mut Game,
    game_id: u64,
    winners: Vec<WinnerPayout>,
    gas_fee_per_winner: u64,
) -> (r: Result<(Vec<Payout>, GameCompleted), GameError>)
    requires
        config.wf(),
        old(game).wf(),
    ensures
        ({
            let g = *old(game);
            let gas = gas_fee_per_winner as int;
            let pot = g.total_pot as int;
            let c0 = ctx.admin.bytes@ != config.admin.bytes@;
            let c1 = g.id != game_id;
            let c2 = g.status != GameStatus::Active;
            let cd = g.game_type == GameType::OneVsOne && winners@.len() != 1;
            let c3 = !places_valid(*config, g.game_type, pot, winners@);
            let c4 = !accounts_line_up(ctx.remaining_accounts@, winner_keys(winners@));
            let c5 = ctx.vault_lamports < prize_total(*config, g.game_type, pot, winners@, gas);
            &&& c0 <==> r == Err::<(Vec<Payout>, GameCompleted), GameError>(
                GameError::UnauthorizedAccess,
            )
            &&& (!c0 && c1) <==> r == Err::<(Vec<Payout>, GameCompleted), GameError>(
                GameError::InvalidGameId,
            )
            &&& (!c0 && !c1 && c2) <==> r == Err::<(Vec<Payout>, GameCompleted), GameError>(
                GameError::GameNotActive,
            )
            &&& (!c0 && !c1 && !c2 && cd) <==> r == Err::<(Vec<Payout>, GameCompleted), GameError>(
                GameError::InvalidWinnerCount,
            )
            &&& (!c0 && !c1 && !c2 && !cd && c3) <==> r == Err::<
                (Vec<Payout>, GameCompleted),
                GameError,
            >(GameError::InvalidPlace)
            &&& (!c0 && !c1 && !c2 && !cd && !c3 && c4) <==> r == Err::<
                (Vec<Payout>, GameCompleted),
                GameError,
            >(GameError::MissingWinnerAccount)
            &&& (!c0 && !c1 && !c2 && !cd && !c3 && !c4 && c5) <==> r == Err::<
                (Vec<Payout>, GameCompleted),
                GameError,
            >(GameError::InsufficientVaultBalance)
            &&& (!c0 && !c1 && !c2 && !cd && !c3 && !c4 && !c5) <==> r is Ok
            &&& r is Err ==> *final(game) == g
            &&& r matches Ok((payouts, event)) ==> {
                &&& final(game).wf()
                &&& with_status(g, *final(game), GameStatus::Completed)
                &&& prizes_owed(*config, g.game_type, pot, winners@, payouts@, gas)
                &&& payouts_total(payouts@) == prize_total(
                    *config,
                    g.game_type,
                    pot,
                    winners@,
                    gas,
                )
                &&& g.status.may_become(final(game).status)
                &&& final(game).open_pot() == 0
                &&& event.game_id == final(game).id
                &&& event.winners@ == winners@
            }
        }),
{
    if ctx.admin != config.admin {
        return Err(GameError::UnauthorizedAccess);
    }
    if game.id != game_id {
        return Err(GameError::InvalidGameId);
    }
    if game.status != GameStatus::Active {
        return Err(GameError::GameNotActive);
    }
    if game.game_type == GameType::OneVsOne && winners.len() != 1 {
        return Err(GameError::InvalidWinnerCount);
    }
    let pot = game.total_pot;
    let n = winners.len();
    let mut i: usize = 0;
    while i < n
        invariant
            n == winners@.len(),
            i <= n,
            config.wf(),
            *game == *old(game),
            pot == game.total_pot,
            ctx.admin.bytes@ == config.admin.bytes@,
            game.id == game_id,
            game.status == GameStatus::Active,
            !(game.game_type == GameType::OneVsOne && winners@.len() != 1),
            forall|j: int|
                0 <= j < i ==> (#[trigger] prize_of(
                    *config,
                    game.game_type,
                    pot as int,
                    winners@[j].place as int,
                )) is Some,
        decreases n - i,
    {
        if prize_amount(config, &game.game_type, pot, winners[i].place).is_none() {
            return Err(GameError::InvalidPlace);
        }
        i = i + 1;
    }
    let mut keys: Vec<Pubkey> = Vec::new();
    let mut i: usize = 0;
    while i < n
        invariant
            n == winners@.len(),
            i <= n,
            keys@ == winner_keys(winners@.take(i as int)),
        decreases n - i,
    {
        keys.push(winners[i].player);
        proof {
            assert(winners@.take(i + 1) =~= winners@.take(i as int).push(winners@[i as int]));
        }
        i = i + 1;
        proof {
            assert(keys@ =~= winner_keys(winners@.take(i as int)));
        }
    }
    proof {
        assert(winners@.take(n as int) =~= winners@);
    }
    if !accounts_match(&ctx.remaining_accounts, &keys) {
        return Err(GameError::MissingWinnerAccount);
    }
    let mut payouts: Vec<Payout> = Vec::new();
    let mut total: u64 = 0;
    let mut i: usize = 0;
    while i < n
        invariant
            n == winners@.len(),
            i <= n,
            *game == *old(game),
            pot == game.total_pot,
            ctx.admin.bytes@ == config.admin.bytes@,
            game.id == game_id,
            game.status == GameStatus::Active,
            !(game.game_type == GameType::OneVsOne && winners@.len() != 1),
            config.wf(),
            places_valid(*config, game.game_type, pot as int, winners@),
            accounts_line_up(ctx.remaining_accounts@, winner_keys(winners@)),
            total == payouts_total(payouts@),
            total == prize_total(
                *config,
                game.game_type,
                pot as int,
                winners@.take(i as int),
                gas_fee_per_winner as int,
            ),
            total <= ctx.vault_lamports,
            prizes_owed(
                *config,
                game.game_type,
                pot as int,
                winners@.take(i as int),
                payouts@,
                gas_fee_per_winner as int,
            ),
        decreases n - i,
    {
        let w = winners[i];
        let prize = match prize_amount(config, &game.game_type, pot, w.place) {
            Some(v) => v,
            None => {
                proof {
                    assert(prize_of(*config, game.game_type, pot as int, winners@[i as int].place as int) is Some);
                }
                return Err(GameError::InvalidPlace);
            },
        };
        let amount = net_amount(prize, gas_fee_per_winner);
        proof {
            let gas = gas_fee_per_winner as int;
            assert(winners@.take(i + 1).drop_last() =~= winners@.take(i as int));
            assert(winners@.take(i + 1).last() == w);
            assert(prize_total(*config, game.game_type, pot as int, winners@.take(i + 1), gas)
                == total + amount);
            lemma_prize_total_mono(*config, game.game_type, pot as int, winners@, i + 1, gas);
        }
        if ctx.vault_lamports - total < amount {
            return Err(GameError::InsufficientVaultBalance);
        }
        let ghost before = payouts@;
        payouts.push(Payout { index: i, recipient: w.player, amount });
        proof {
            lemma_payouts_total_push(before, Payout { index: i, recipient: w.player, amount });
        }
        total = total + amount;
        i = i + 1;
    }
    proof {
        assert(winners@.take(n as int) =~= winners@);
    }
    game.status = GameStatus::Completed;
    let event = GameCompleted { game_id: game.id, winners };
    Ok((payouts, event))
}

/// Moves `amount` out of the vault to an arbitrary supplied account.
pub fn admin_emergency_withdraw(
    ctx: &AdminEmergencyWithdraw,
    config: &GameConfig,
    recipient: Pubkey,
    amount: u64,
) -> (r: Result<(Payout, EmergencyWithdraw), GameError>)
    ensures
        ({
            let c0 = ctx.admin.bytes@ != config.admin.bytes@;
            let c1 = ctx.vault_lamports < amount;
            let c2 = !has_account(ctx.remaining_accounts@, recipient);
            &&& c0 <==> r == Err::<(Payout, EmergencyWithdraw), GameError>(
                GameError::UnauthorizedAccess,
            )
            &&& (!c0 && c1) <==> r == Err::<(Payout, EmergencyWithdraw), GameError>(
                GameError::InsufficientVaultBalance,
            )
            &&& (!c0 && !c1 && c2) <==> r == Err::<(Payout, EmergencyWithdraw), GameError>(
                GameError::MissingRecipientAccount,
            )
            &&& (!c0 && !c1 && !c2) <==> r is Ok
            &&& r matches Ok((payout, event)) ==> {
                &&& first_account(ctx.remaining_accounts@, recipient, payout.index as int)
                &&& payout.recipient == recipient
                &&& payout.amount == amount
                &&& event.recipient == recipient
                &&& event.amount == amount
            }
        }),
{
    if ctx.admin != config.admin {
        return Err(GameError::UnauthorizedAccess);
    }
    if ctx.vault_lamports < amount {
        return Err(GameError::InsufficientVaultBalance);
    }
    let index = match find_account(&ctx.remaining_accounts, &recipient) {
        Some(i) => i,
        None => {
            return Err(GameError::MissingRecipientAccount);
        },
    };
    Ok((Payout { index, recipient, amount }, EmergencyWithdraw { recipient, amount }))
}

/// A percentage update is all or nothing: either none of the three is
/// given, or all three are and they sum to 100.
pub open spec fn split_update_ok(first: Option<u8>, second: Option<u8>, third: Option<u8>) -> bool {
    match (first, second, third) {
        (None, None, None) => true,
        (Some(a), Some(b), Some(c)) => valid_split(a as int, b as int, c as int),
        _ => false,
    }
}

/// The configuration after an accepted update: each given field replaced,
/// each absent one kept.
pub open spec fn updated_config(
    c: GameConfig,
    fee_bps: Option<u16>,
    first: Option<u8>,
    second: Option<u8>,
    third: Option<u8>,
    fee_receiver: Option<Pubkey>,
) -> GameConfig {
    GameConfig {
        fee_bps: match fee_bps {
            Some(f) => f,
            None => c.fee_bps,
        },
        first_place_percentage: match first {
            Some(p) => p,
            None => c.first_place_percentage,
        },
        second_place_percentage: match second {
            Some(p) => p,
            None => c.second_place_percentage,
        },
        third_place_percentage: match third {
            Some(p) => p,
            None => c.third_place_percentage,
        },
        fee_receiver: match fee_receiver {
            Some(k) => k,
            None => c.fee_receiver,
        },
        ..c
    }
}

/// Changes the fee rate, the prize split and the fee receiver; only the
/// admin may.
pub fn update_config(
    ctx: &UpdateConfig,
    config: &mut GameConfig,
    fee_bps: Option<u16>,
    first_place_percentage: Option<u8>,
    second_place_percentage: Option<u8>,
    third_place_percentage: Option<u8>,
    fee_receiver: Option<Pubkey>,
) -> (r: Result<(), GameError>)
    requires
        old(config).wf(),
    ensures
        ({
            let c0 = ctx.admin.bytes@ != old(config).admin.bytes@;
            let c1 = fee_bps matches Some(f) && !valid_fee_bps(f as int);
            let c2 = !split_update_ok(
                first_place_percentage,
                second_place_percentage,
                third_place_percentage,
            );
            &&& c0 <==> r == Err::<(), GameError>(GameError::UnauthorizedAccess)
            &&& (!c0 && c1) <==> r == Err::<(), GameError>(GameError::InvalidFeeBps)
            &&& (!c0 && !c1 && c2) <==> r == Err::<(), GameError>(
                GameError::InvalidPrizeDistribution,
            )
            &&& (!c0 && !c1 && !c2) <==> r is Ok
            &&& r is Err ==> *final(config) == *old(config)
            &&& r is Ok ==> *final(config) == updated_config(
                *old(config),
                fee_bps,
                first_place_percentage,
                second_place_percentage,
                third_place_percentage,
                fee_receiver,
            )
            &&& final(config).wf()
        }),
{
    if ctx.admin != config.admin {
        return Err(GameError::UnauthorizedAccess);
    }
    if let Some(fee) = fee_bps {
        if fee > 10000 {
            return Err(GameError::InvalidFeeBps);
        }
    }
    let split_ok = match (first_place_percentage, second_place_percentage, third_place_percentage) {
        (None, None, None) => true,
        (Some(a), Some(b), Some(c)) => a as u16 + b as u16 + c as u16 == 100,
        _ => false,
    };
    if !split_ok {
        return Err(GameError::InvalidPrizeDistribution);
    }
    if let Some(fee) = fee_bps {
        config.fee_bps = fee;
    }
    if let (Some(a), Some(b), Some(c)) = (
        first_place_percentage,
        second_place_percentage,
        third_place_percentage,
    ) {
        config.first_place_percentage = a;
        config.second_place_percentage = b;
        config.third_place_percentage = c;
    }
    if let Some(receiver) = fee_receiver {
        config.fee_receiver = receiver;
    }
    Ok(())
}

} // verus!
