use gaming_vault::accounts::{CreateGame, Initialize, JoinGame, UpdateConfig};
use gaming_vault::events::GameError;
use gaming_vault::instructions::{
    compute_fee, create_game, initialize, join_game, net_amount, update_config,
};
use gaming_vault::state::{Game, GameConfig, GameStatus, GameTier, GameType, Pubkey};

fn key(n: u8) -> Pubkey {
    Pubkey::new_from_array([n; 32])
}

fn config_with(fee_bps: u16) -> GameConfig {
    let ctx = Initialize { admin: key(1), fee_receiver: key(2), config_bump: 254 };
    initialize(&ctx, fee_bps, 50, 30, 20).unwrap()
}

fn new_game(config: &mut GameConfig, creator: u8, game_type: GameType, tier: GameTier) -> Game {
    let ctx = CreateGame { creator: key(creator), creator_lamports: 10_000_000_000, fee_receiver: key(2), game_bump: 7 };
    create_game(&ctx, config, game_type, tier, 1_000).unwrap().0
}

fn join(config: &GameConfig, game: &mut Game, player: u8) -> Result<(), GameError> {
    let ctx = JoinGame { player: key(player), player_lamports: 10_000_000_000, fee_receiver: key(2) };
    let id = game.id;
    join_game(&ctx, config, game, id, 2_000).map(|_| ())
}

#[test]
fn initialize_persists_inputs() {
    let ctx = Initialize { admin: key(1), fee_receiver: key(2), config_bump: 254 };
    let c = initialize(&ctx, 500, 50, 30, 20).unwrap();
    assert!(c.admin == key(1));
    assert!(c.fee_receiver == key(2));
    assert_eq!(c.fee_bps, 500);
    assert_eq!(
        (c.first_place_percentage, c.second_place_percentage, c.third_place_percentage),
        (50, 30, 20)
    );
    assert_eq!(c.next_game_id, 1);
    assert_eq!(c.bump, 254);
}

#[test]
fn initialize_accepts_edge_values() {
    let ctx = Initialize { admin: key(1), fee_receiver: key(2), config_bump: 0 };
    assert_eq!(initialize(&ctx, 10000, 100, 0, 0).unwrap().fee_bps, 10000);
    assert_eq!(initialize(&ctx, 0, 34, 33, 33).unwrap().fee_bps, 0);
}

#[test]
fn initialize_rejects_bad_values() {
    let ctx = Initialize { admin: key(1), fee_receiver: key(2), config_bump: 0 };
    assert_eq!(initialize(&ctx, 10001, 50, 30, 20).err(), Some(GameError::InvalidFeeBps));
    assert_eq!(initialize(&ctx, 500, 50, 30, 21).err(), Some(GameError::InvalidPrizeDistribution));
    assert_eq!(initialize(&ctx, 500, 50, 30, 19).err(), Some(GameError::InvalidPrizeDistribution));
    // 200 + 100 + 56 wraps to 100 in a byte; the sum must not wrap.
    assert_eq!(initialize(&ctx, 500, 200, 100, 56).err(), Some(GameError::InvalidPrizeDistribution));
    // The fee check comes first.
    assert_eq!(initialize(&ctx, 20000, 1, 1, 1).err(), Some(GameError::InvalidFeeBps));
}

#[test]
fn tier_stakes() {
    assert_eq!(GameTier::PointOne.to_lamports(), 100_000_000);
    assert_eq!(GameTier::PointTwoFive.to_lamports(), 250_000_000);
    assert_eq!(GameTier::PointFive.to_lamports(), 500_000_000);
    assert_eq!(GameTier::One.to_lamports(), 1_000_000_000);
}

#[test]
fn fee_and_net_arithmetic() {
    assert_eq!(compute_fee(100_000_000, 500), 5_000_000);
    assert_eq!(compute_fee(250_000_000, 333), 8_325_000);
    assert_eq!(compute_fee(999, 1), 0);
    assert_eq!(compute_fee(u64::MAX, 10000), u64::MAX);
    assert_eq!(compute_fee(u64::MAX, 9999), 18_444_899_399_302_180_659);
    assert_eq!(net_amount(500_000_000, 1_000_000), 499_000_000);
    assert_eq!(net_amount(5, 9), 0);
}

#[test]
fn create_game_lowest_tier_fee() {
    let mut config = config_with(500);
    let ctx = CreateGame { creator: key(3), creator_lamports: 105_000_000, fee_receiver: key(2), game_bump: 9 };
    let (game, charge, event) =
        create_game(&ctx, &mut config, GameType::OneVsOne, GameTier::PointOne, 77).unwrap();
    assert_eq!(charge.stake, 100_000_000);
    assert_eq!(charge.fee, 5_000_000);
    assert_eq!(game.id, 1);
    assert_eq!(config.next_game_id, 2);
    assert!(game.creator == key(3));
    assert_eq!(game.max_players, 2);
    assert_eq!(game.status, GameStatus::WaitingForPlayers);
    assert_eq!(game.players.len(), 1);
    assert!(game.players[0].player == key(3));
    assert_eq!(game.players[0].amount, 100_000_000);
    assert_eq!(game.players[0].joined_at, 77);
    assert_eq!(game.total_pot, 100_000_000);
    assert_eq!(game.created_at, 77);
    assert_eq!(game.bump, 9);
    assert_eq!(event.game_id, game.id);
    assert!(event.creator == game.creator);
    assert_eq!(event.game_type, game.game_type);
    assert_eq!(event.tier, game.tier);
    assert_eq!(event.stake_amount, game.stake_per_player);
}

#[test]
fn create_game_needs_stake_plus_fee() {
    let mut config = config_with(500);
    let ctx = CreateGame { creator: key(3), creator_lamports: 104_999_999, fee_receiver: key(2), game_bump: 9 };
    let r = create_game(&ctx, &mut config, GameType::OneVsOne, GameTier::PointOne, 77);
    assert_eq!(r.err(), Some(GameError::InsufficientFunds));
    assert_eq!(config.next_game_id, 1);
}

#[test]
fn create_tournament_takes_size_and_next_id() {
    let mut config = config_with(0);
    let first = new_game(&mut config, 3, GameType::OneVsOne, GameTier::One);
    let second = new_game(&mut config, 4, GameType::Tournament { size: 8 }, GameTier::PointFive);
    assert_eq!(first.id, 1);
    assert_eq!(second.id, 2);
    assert_eq!(second.max_players, 8);
    assert_eq!(second.stake_per_player, 500_000_000);
    assert_eq!(config.next_game_id, 3);
}

#[test]
fn one_vs_one_starts_when_full() {
    let mut config = config_with(500);
    let mut game = new_game(&mut config, 3, GameType::OneVsOne, GameTier::PointOne);
    let ctx = JoinGame { player: key(4), player_lamports: 105_000_000, fee_receiver: key(2) };
    let (charge, joined, started) = join_game(&ctx, &config, &mut game, 1, 55).unwrap();
    assert_eq!(charge.stake, 100_000_000);
    assert_eq!(charge.fee, 5_000_000);
    assert_eq!(game.status, GameStatus::Active);
    assert_eq!(game.total_pot, 200_000_000);
    assert_eq!(game.players.len(), 2);
    assert!(game.players[1].player == key(4));
    assert_eq!(game.players[1].joined_at, 55);
    assert_eq!(joined.game_id, 1);
    assert!(joined.player == key(4));
    assert_eq!(joined.players_count, 2);
    let started = started.unwrap();
    assert_eq!(started.game_id, 1);
    assert_eq!(started.players.len(), 2);
    assert!(started.players[0] == key(3));
    assert!(started.players[1] == key(4));
}

#[test]
fn third_join_fails_without_change() {
    let mut config = config_with(500);
    let mut game = new_game(&mut config, 3, GameType::OneVsOne, GameTier::PointOne);
    join(&config, &mut game, 4).unwrap();
    assert_eq!(join(&config, &mut game, 5), Err(GameError::GameNotJoinable));
    assert_eq!(game.total_pot, 200_000_000);
    assert_eq!(game.players.len(), 2);
}

#[test]
fn duplicate_join_fails_without_change() {
    let mut config = config_with(500);
    let mut game = new_game(&mut config, 3, GameType::Tournament { size: 4 }, GameTier::PointOne);
    assert_eq!(join(&config, &mut game, 3), Err(GameError::AlreadyInThisGame));
    join(&config, &mut game, 4).unwrap();
    assert_eq!(join(&config, &mut game, 4), Err(GameError::AlreadyInThisGame));
    assert_eq!(game.total_pot, 200_000_000);
    assert_eq!(game.players.len(), 2);
    assert_eq!(game.status, GameStatus::WaitingForPlayers);
}

#[test]
fn join_checks_id_seats_and_funds() {
    let mut config = config_with(500);
    let mut game = new_game(&mut config, 3, GameType::Tournament { size: 3 }, GameTier::PointOne);
    let ctx = JoinGame { player: key(4), player_lamports: 10_000_000_000, fee_receiver: key(2) };
    assert_eq!(join_game(&ctx, &config, &mut game, 2, 0).err(), Some(GameError::InvalidGameId));
    let poor = JoinGame { player: key(4), player_lamports: 104_999_999, fee_receiver: key(2) };
    assert_eq!(join_game(&poor, &config, &mut game, 1, 0).err(), Some(GameError::InsufficientFunds));
    assert_eq!(game.players.len(), 1);
    let (_, joined, started) = join_game(&ctx, &config, &mut game, 1, 0).unwrap();
    assert_eq!(joined.players_count, 2);
    assert!(started.is_none());
    join(&config, &mut game, 5).unwrap();
    assert_eq!(game.status, GameStatus::Active);
    assert_eq!(game.total_pot, 300_000_000);
}

#[test]
fn tournament_of_one_seat_is_full_at_creation() {
    let mut config = config_with(500);
    let mut game = new_game(&mut config, 3, GameType::Tournament { size: 1 }, GameTier::PointOne);
    assert_eq!(join(&config, &mut game, 4), Err(GameError::GameFull));
}

#[test]
fn update_config_applies_given_fields() {
    let mut config = config_with(500);
    let admin = UpdateConfig { admin: key(1) };
    update_config(&admin, &mut config, Some(250), None, None, None, None).unwrap();
    assert_eq!(config.fee_bps, 250);
    assert_eq!(config.first_place_percentage, 50);
    update_config(&admin, &mut config, None, Some(60), Some(25), Some(15), Some(key(9))).unwrap();
    assert_eq!(config.fee_bps, 250);
    assert_eq!(
        (config.first_place_percentage, config.second_place_percentage, config.third_place_percentage),
        (60, 25, 15)
    );
    assert!(config.fee_receiver == key(9));
    assert!(config.admin == key(1));
    assert_eq!(config.next_game_id, 1);
}

#[test]
fn update_config_rejects_bad_updates_whole() {
    let mut config = config_with(500);
    let admin = UpdateConfig { admin: key(1) };
    let stranger = UpdateConfig { admin: key(8) };
    assert_eq!(
        update_config(&stranger, &mut config, Some(1), None, None, None, None),
        Err(GameError::UnauthorizedAccess)
    );
    assert_eq!(
        update_config(&admin, &mut config, Some(10001), None, None, None, Some(key(9))),
        Err(GameError::InvalidFeeBps)
    );
    assert_eq!(
        update_config(&admin, &mut config, Some(100), Some(60), Some(40), None, None),
        Err(GameError::InvalidPrizeDistribution)
    );
    assert_eq!(
        update_config(&admin, &mut config, Some(100), Some(60), Some(30), Some(20), None),
        Err(GameError::InvalidPrizeDistribution)
    );
    assert_eq!(config.fee_bps, 500);
    assert!(config.fee_receiver == key(2));
    assert_eq!(
        (config.first_place_percentage, config.second_place_percentage, config.third_place_percentage),
        (50, 30, 20)
    );
}

#[test]
fn pubkey_bytes_round_trip() {
    let mut bytes = [0u8; 32];
    bytes[31] = 1;
    let k = Pubkey::new_from_array(bytes);
    assert_eq!(k.to_bytes(), bytes);
    assert!(k != Pubkey::new_from_array([0; 32]));
}

#[test]
fn fee_goes_to_the_configured_receiver() {
    let mut config = config_with(500);
    let wrong = CreateGame { creator: key(3), creator_lamports: u64::MAX, fee_receiver: key(9), game_bump: 0 };
    let r = create_game(&wrong, &mut config, GameType::OneVsOne, GameTier::PointOne, 0);
    assert_eq!(r.err(), Some(GameError::InvalidFeeReceiver));
    assert_eq!(config.next_game_id, 1);
    let right = CreateGame { creator: key(3), creator_lamports: u64::MAX, fee_receiver: key(2), game_bump: 0 };
    let (mut game, charge, _) = create_game(&right, &mut config, GameType::OneVsOne, GameTier::PointOne, 0).unwrap();
    assert!(charge.fee_receiver == key(2));
    let stranger = JoinGame { player: key(4), player_lamports: u64::MAX, fee_receiver: key(9) };
    assert_eq!(join_game(&stranger, &config, &mut game, 1, 0).err(), Some(GameError::InvalidFeeReceiver));
    assert_eq!(game.players.len(), 1);
    let ok = JoinGame { player: key(4), player_lamports: u64::MAX, fee_receiver: key(2) };
    let (charge, _, _) = join_game(&ok, &config, &mut game, 1, 0).unwrap();
    assert!(charge.fee_receiver == key(2));
    assert_eq!(charge.fee, 5_000_000);
}

#[test]
fn tournament_without_seats_is_refused() {
    let mut config = config_with(500);
    let ctx = CreateGame { creator: key(3), creator_lamports: u64::MAX, fee_receiver: key(2), game_bump: 0 };
    let r = create_game(&ctx, &mut config, GameType::Tournament { size: 0 }, GameTier::PointOne, 0);
    assert_eq!(r.err(), Some(GameError::GameFull));
    assert_eq!(config.next_game_id, 1);
}

#[test]
fn repeated_config_update_is_idempotent() {
    let mut config = config_with(500);
    let admin = UpdateConfig { admin: key(1) };
    for _ in 0..2 {
        update_config(&admin, &mut config, Some(700), Some(70), Some(20), Some(10), Some(key(5))).unwrap();
        assert_eq!(config.fee_bps, 700);
        assert_eq!(
            (config.first_place_percentage, config.second_place_percentage, config.third_place_percentage),
            (70, 20, 10)
        );
        assert!(config.fee_receiver == key(5));
    }
}
