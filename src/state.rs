use vstd::prelude::*;

verus! {

/// A 32-byte account identity.
#[derive(Clone, Copy, Debug)]
pub struct Pubkey {
    pub bytes: [u8; 32],
}

impl Pubkey {
    pub fn new_from_array(bytes: [u8; 32]) -> (r: Pubkey)
        ensures
            r.bytes == bytes,
    {
        Pubkey { bytes }
    }

    pub fn to_bytes(&self) -> (r: [u8; 32])
        ensures
            r == self.bytes,
    {
        self.bytes
    }
}

impl PartialEq for Pubkey {
    fn eq(&self, o: &Pubkey) -> (r: bool)
        ensures
            r == (self.bytes@ == o.bytes@),
    {
        let mut i: usize = 0;
        while i < 32
            invariant
                i <= 32,
                self.bytes@.len() == 32,
                o.bytes@.len() == 32,
                forall|j: int| 0 <= j < i ==> self.bytes@[j] == o.bytes@[j],
            decreases 32 - i,
        {
            if self.bytes[i] != o.bytes[i] {
                return false;
            }
            i = i + 1;
        }
        proof {
            assert(self.bytes@ =~= o.bytes@);
        }
        true
    }
}

impl vstd::std_specs::cmp::PartialEqSpecImpl for Pubkey {
    open spec fn obeys_eq_spec() -> bool {
        true
    }

    open spec fn eq_spec(&self, o: &Pubkey) -> bool {
        self.bytes@ == o.bytes@
    }
}

/// The shape of a match: a duel, or a tournament of `size` seats.
#[derive(Clone, Copy, PartialEq, Eq, Structural, Debug)]
pub enum GameType {
    OneVsOne,
    Tournament { size: u8 },
}

impl GameType {
    /// Number of seats a game of this type has.
    pub open spec fn spec_max_players(self) -> nat {
        match self {
            GameType::OneVsOne => 2,
            GameType::Tournament { size } => size as nat,
        }
    }

    pub fn max_players(&self) -> (r: u8)
        ensures
            r == self.spec_max_players(),
    {
        match self {
            GameType::OneVsOne => 2,
            GameType::Tournament { size } => *size,
        }
    }
}

/// One of the four fixed stakes, in lamports.
#[derive(Clone, Copy, PartialEq, Eq, Structural, Debug)]
pub enum GameTier {
    PointOne,
    PointTwoFive,
    PointFive,
    One,
}

pub const MAX_STAKE: u64 = 1_000_000_000;

impl GameTier {
    pub open spec fn spec_lamports(self) -> nat {
        match self {
            GameTier::PointOne => 100_000_000,
            GameTier::PointTwoFive => 250_000_000,
            GameTier::PointFive => 500_000_000,
            GameTier::One => 1_000_000_000,
        }
    }

    pub fn to_lamports(&self) -> (r: u64)
        ensures
            r == self.spec_lamports(),
            0 < r <= MAX_STAKE,
    {
        match self {
            GameTier::PointOne => 100_000_000,
            GameTier::PointTwoFive => 250_000_000,
            GameTier::PointFive => 500_000_000,
            GameTier::One => 1_000_000_000,
        }
    }
}

#[derive(Clone, Copy, PartialEq, Eq, Structural, Debug)]
pub enum GameStatus {
    WaitingForPlayers,
    Active,
    Completed,
    Cancelled,
}

impl GameStatus {
    /// Open games still hold their pot in the vault.
    pub open spec fn is_open(self) -> bool {
        self == GameStatus::WaitingForPlayers || self == GameStatus::Active
    }

    /// The lifecycle order: a status may only move to one at or after it.
    pub open spec fn may_become(self, next: GameStatus) -> bool {
        match self {
            GameStatus::WaitingForPlayers => true,
            GameStatus::Active => next != GameStatus::WaitingForPlayers,
            GameStatus::Completed => next == GameStatus::Completed,
            GameStatus::Cancelled => next == GameStatus::Cancelled,
        }
    }
}

/// One roster entry: who joined, with how much, and when.
#[derive(Clone, Copy, Debug)]
pub struct PlayerStake {
    pub player: Pubkey,
    pub amount: u64,
    pub joined_at: i64,
}

/// A winner and the place (1, 2 or 3) they finished in.
#[derive(Clone, Copy, Debug)]
pub struct WinnerPayout {
    pub player: Pubkey,
    pub place: u8,
}

/// The singleton configuration record.
#[derive(Debug)]
pub struct GameConfig {
    pub admin: Pubkey,
    pub fee_receiver: Pubkey,
    pub fee_bps: u16,
    pub first_place_percentage: u8,
    pub second_place_percentage: u8,
    pub third_place_percentage: u8,
    pub next_game_id: u64,
    pub bump: u8,
}

pub open spec fn valid_fee_bps(fee_bps: int) -> bool {
    fee_bps <= 10000
}

pub open spec fn valid_split(first: int, second: int, third: int) -> bool {
    first + second + third == 100
}

impl GameConfig {
    pub open spec fn wf(&self) -> bool {
        &&& valid_fee_bps(self.fee_bps as int)
        &&& valid_split(
            self.first_place_percentage as int,
            self.second_place_percentage as int,
            self.third_place_percentage as int,
        )
    }

    /// Whether the fee rate and the prize split are in range.
    pub fn is_valid(&self) -> (r: bool)
        ensures
            r == self.wf(),
    {
        self.fee_bps <= 10000 && self.first_place_percentage as u16
            + self.second_place_percentage as u16 + self.third_place_percentage as u16 == 100
    }

    /// The percentage of the pot owed to `place`, if `place` is a paid place.
    pub open spec fn place_percentage(&self, place: int) -> Option<int> {
        if place == 1 {
            Some(self.first_place_percentage as int)
        } else if place == 2 {
            Some(self.second_place_percentage as int)
        } else if place == 3 {
            Some(self.third_place_percentage as int)
        } else {
            None
        }
    }
}

/// The fee charged on `stake` at `fee_bps` basis points, rounded down.
pub open spec fn fee_of(stake: int, fee_bps: int) -> int {
    stake * fee_bps / 10000
}

/// Sum of the roster's stakes.
pub open spec fn pot_of(players: Seq<PlayerStake>) -> int
    decreases players.len(),
{
    if players.len() == 0 {
        0
    } else {
        pot_of(players.drop_last()) + players.last().amount
    }
}

pub open spec fn has_player(players: Seq<PlayerStake>, key: Pubkey) -> bool {
    exists|i: int| 0 <= i < players.len() && players[i].player.bytes@ == key.bytes@
}

/// No two entries of the roster belong to the same player.
pub open spec fn distinct_keys(players: Seq<PlayerStake>) -> bool {
    forall|i: int, j: int|
        0 <= i < j < players.len() ==> players[i].player.bytes@ != players[j].player.bytes@
}

/// Whether every entry of the roster belongs to a different player.
pub fn keys_distinct(players: &Vec<PlayerStake>) -> (r: bool)
    ensures
        r == distinct_keys(players@),
{
    let mut i: usize = 0;
    while i < players.len()
        invariant
            i <= players@.len(),
            forall|a: int, b: int|
                0 <= a < b < i ==> players@[a].player.bytes@ != players@[b].player.bytes@,
        decreases players@.len() - i,
    {
        let mut k: usize = 0;
        while k < i
            invariant
                k <= i < players@.len(),
                forall|a: int| 0 <= a < k ==> players@[a].player.bytes@ != players@[i as int].player.bytes@,
            decreases i - k,
        {
            if players[k].player == players[i].player {
                return false;
            }
            k = k + 1;
        }
        i = i + 1;
    }
    true
}

/// One match record.
#[derive(Debug)]
pub struct Game {
    pub id: u64,
    pub creator: Pubkey,
    pub game_type: GameType,
    pub tier: GameTier,
    pub stake_per_player: u64,
    pub max_players: u8,
    pub status: GameStatus,
    pub players: Vec<PlayerStake>,
    pub total_pot: u64,
    pub created_at: i64,
    pub bump: u8,
}

impl Game {
    /// Record invariant: the stake follows the tier, every entry staked it,
    /// the seat count follows the type and bounds the roster, no player
    /// holds two seats, and the pot is the roster's sum.
    pub open spec fn wf(&self) -> bool {
        &&& self.stake_per_player == self.tier.spec_lamports()
        &&& self.max_players == self.game_type.spec_max_players()
        &&& self.players@.len() <= self.max_players
        &&& distinct_keys(self.players@)
        &&& forall|i: int|
            0 <= i < self.players@.len() ==> #[trigger] self.players@[i].amount
                == self.stake_per_player
        &&& self.total_pot == pot_of(self.players@)
    }

    /// Whether the record meets its invariant.
    pub fn is_well_formed(&self) -> (r: bool)
        ensures
            r == self.wf(),
    {
        let stake = self.stake_per_player;
        if stake != self.tier.to_lamports() || self.max_players != self.game_type.max_players()
            || self.players.len() > self.max_players as usize || !keys_distinct(&self.players) {
            return false;
        }
        let mut sum: u64 = 0;
        let mut i: usize = 0;
        while i < self.players.len()
            invariant
                i <= self.players@.len() <= self.max_players,
                distinct_keys(self.players@),
                stake == self.stake_per_player == self.tier.spec_lamports(),
                self.max_players == self.game_type.spec_max_players(),
                stake <= MAX_STAKE,
                forall|j: int| 0 <= j < i ==> #[trigger] self.players@[j].amount == stake,
                sum == pot_of(self.players@.take(i as int)),
            decreases self.players@.len() - i,
        {
            if self.players[i].amount != stake {
                proof {
                    assert(self.players@[i as int].amount != self.stake_per_player);
                }
                return false;
            }
            proof {
                let pre = self.players@.take(i as int);
                assert(self.players@.take(i + 1).drop_last() =~= pre);
                assert forall|j: int| 0 <= j < pre.len() implies #[trigger] pre[j].amount
                    == stake by {
                    assert(pre[j] == self.players@[j]);
                }
                lemma_pot_uniform(pre, stake as int);
                assert(i * stake <= 254 * MAX_STAKE) by (nonlinear_arith)
                    requires
                        i <= 254,
                        stake <= MAX_STAKE,
                ;
            }
            sum = sum + stake;
            i = i + 1;
        }
        proof {
            assert(self.players@.take(i as int) =~= self.players@);
        }
        self.total_pot == sum
    }

    /// What the vault owes this game: its pot while open, nothing after.
    pub open spec fn open_pot(&self) -> int {
        if self.status.is_open() {
            self.total_pot as int
        } else {
            0
        }
    }
}

/// A roster whose entries all staked `stake` sums to `len * stake`.
pub proof fn lemma_pot_uniform(players: Seq<PlayerStake>, stake: int)
    requires
        forall|i: int| 0 <= i < players.len() ==> #[trigger] players[i].amount == stake,
    ensures
        pot_of(players) == players.len() * stake,
    decreases players.len(),
{
    if players.len() > 0 {
        let rest = players.drop_last();
        assert forall|i: int| 0 <= i < rest.len() implies #[trigger] rest[i].amount == stake by {
            assert(rest[i] == players[i]);
        }
        lemma_pot_uniform(rest, stake);
        assert(players.last() == players[players.len() - 1]);
        assert((rest.len() + 1) * stake == rest.len() * stake + stake) by (nonlinear_arith);
    }
}

} // verus!
