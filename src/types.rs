//! The records of the game: players, bets, spin results, the round, and the
//! operations, events and chain-to-chain messages that move them.

use crate::wheel::BetType;
use vstd::prelude::*;

verus! {

/// Marker naming the application's operation and query interface.
pub struct RouletteAbi;

#[derive(Debug, Clone)]
pub struct Player {
    pub chain_id: String,
    pub name: String,
    pub balance: u64,
}

pub struct PlayerView {
    pub chain_id: Seq<char>,
    pub name: Seq<char>,
    pub balance: u64,
}

impl View for Player {
    type V = PlayerView;

    open spec fn view(&self) -> PlayerView {
        PlayerView { chain_id: self.chain_id@, name: self.name@, balance: self.balance }
    }
}

impl Player {
    /// A field-by-field copy of this record.
    pub fn copied(&self) -> (r: Player)
        ensures
            r@ == self@,
    {
        Player { chain_id: self.chain_id.clone(), name: self.name.clone(), balance: self.balance }
    }
}

#[derive(Debug, Clone)]
pub struct Bet {
    pub player_chain_id: String,
    pub player_name: String,
    pub bet_type: BetType,
    pub numbers: Vec<u8>,
    pub amount: u64,
}

pub struct BetView {
    pub player_chain_id: Seq<char>,
    pub player_name: Seq<char>,
    pub bet_type: BetType,
    pub numbers: Seq<u8>,
    pub amount: u64,
}

impl View for Bet {
    type V = BetView;

    open spec fn view(&self) -> BetView {
        BetView {
            player_chain_id: self.player_chain_id@,
            player_name: self.player_name@,
            bet_type: self.bet_type,
            numbers: self.numbers@,
            amount: self.amount,
        }
    }
}

/// A copy of a byte vector, element by element.
pub fn copy_bytes(v: &Vec<u8>) -> (r: Vec<u8>)
    ensures
        r@ == v@,
{
    let mut out: Vec<u8> = Vec::new();
    let mut i: usize = 0;
    while i < v.len()
        invariant
            0 <= i <= v@.len(),
            out@ == v@.subrange(0, i as int),
        decreases v@.len() - i,
    {
        out.push(v[i]);
        i = i + 1;
    }
    assert(out@ =~= v@);
    out
}

impl Bet {
    /// A field-by-field copy of this record.
    pub fn copied(&self) -> (r: Bet)
        ensures
            r@ == self@,
    {
        Bet {
            player_chain_id: self.player_chain_id.clone(),
            player_name: self.player_name.clone(),
            bet_type: self.bet_type,
            numbers: copy_bytes(&self.numbers),
            amount: self.amount,
        }
    }
}

#[derive(Debug, Clone)]
pub struct Winner {
    pub player_chain_id: String,
    pub player_name: String,
    pub bet_type: BetType,
    pub bet_amount: u64,
    pub payout: u64,
}

pub struct WinnerView {
    pub player_chain_id: Seq<char>,
    pub player_name: Seq<char>,
    pub bet_type: BetType,
    pub bet_amount: u64,
    pub payout: u64,
}

impl View for Winner {
    type V = WinnerView;

    open spec fn view(&self) -> WinnerView {
        WinnerView {
            player_chain_id: self.player_chain_id@,
            player_name: self.player_name@,
            bet_type: self.bet_type,
            bet_amount: self.bet_amount,
            payout: self.payout,
        }
    }
}

impl Winner {
    /// A field-by-field copy of this record.
    pub fn copied(&self) -> (r: Winner)
        ensures
            r@ == self@,
    {
        Winner {
            player_chain_id: self.player_chain_id.clone(),
            player_name: self.player_name.clone(),
            bet_type: self.bet_type,
            bet_amount: self.bet_amount,
            payout: self.payout,
        }
    }
}

/// The views of a list of winners.
pub open spec fn winner_views(ws: Seq<Winner>) -> Seq<WinnerView> {
    ws.map_values(|w: Winner| w@)
}

#[derive(Debug, Clone)]
pub struct SpinResult {
    pub number: u8,
    pub color: String,
    pub timestamp: String,
    pub winners: Vec<Winner>,
}

pub struct SpinResultView {
    pub number: u8,
    pub color: Seq<char>,
    pub timestamp: Seq<char>,
    pub winners: Seq<WinnerView>,
}

impl View for SpinResult {
    type V = SpinResultView;

    open spec fn view(&self) -> SpinResultView {
        SpinResultView {
            number: self.number,
            color: self.color@,
            timestamp: self.timestamp@,
            winners: winner_views(self.winners@),
        }
    }
}

impl SpinResult {
    /// A field-by-field copy of this record.
    pub fn copied(&self) -> (r: SpinResult)
        ensures
            r@ == self@,
    {
        let mut winners: Vec<Winner> = Vec::new();
        let mut i: usize = 0;
        while i < self.winners.len()
            invariant
                0 <= i <= self.winners@.len(),
                winner_views(winners@) == winner_views(self.winners@.take(i as int)),
            decreases self.winners@.len() - i,
        {
            let w = self.winners[i].copied();
            proof {
                assert(winner_views(winners@.push(w)) =~= winner_views(winners@).push(w@));
                assert(winner_views(self.winners@.take(i + 1)) =~= winner_views(
                    self.winners@.take(i as int),
                ).push(self.winners@[i as int]@));
            }
            winners.push(w);
            i = i + 1;
        }
        assert(self.winners@.take(self.winners@.len() as int) =~= self.winners@);
        SpinResult {
            number: self.number,
            color: self.color.clone(),
            timestamp: self.timestamp.clone(),
            winners,
        }
    }
}

#[derive(Debug, Clone)]
pub struct GameState {
    pub is_spinning: bool,
    pub current_bets: Vec<Bet>,
    pub last_result: Option<SpinResult>,
    pub history: Vec<u8>,
    pub betting_end_time: Option<u64>,
}

impl GameState {
    /// A round with no bets, no result, no history and no deadline.
    pub fn new() -> (r: GameState)
        ensures
            !r.is_spinning,
            r.current_bets@.len() == 0,
            r.last_result.is_none(),
            r.history@.len() == 0,
            r.betting_end_time.is_none(),
    {
        GameState {
            is_spinning: false,
            current_bets: Vec::new(),
            last_result: None,
            history: Vec::new(),
            betting_end_time: None,
        }
    }
}

impl Default for GameState {
    fn default() -> (r: GameState)
        ensures
            !r.is_spinning,
            r.current_bets@.len() == 0,
            r.last_result.is_none(),
            r.history@.len() == 0,
            r.betting_end_time.is_none(),
    {
        GameState::new()
    }
}

/// How a chain is set up: with a host chain given it acts as a player chain
/// relaying to that host; without one it is the host.
#[derive(Debug, Clone)]
pub struct InstantiationArgument {
    pub host_chain_id: Option<String>,
}

impl Default for InstantiationArgument {
    fn default() -> (r: InstantiationArgument)
        ensures
            r.host_chain_id.is_none(),
    {
        InstantiationArgument { host_chain_id: None }
    }
}

#[derive(Debug)]
pub enum Operation {
    RegisterPlayer { player_id: String, name: String, initial_balance: u64 },
    PlaceBet { player_id: String, bet_type: BetType, numbers: Vec<u8>, amount: u64 },
    StartRound,
    SpinWheel,
    SettleBets { result: u8 },
}

#[derive(Debug, Clone)]
pub enum RouletteEvent {
    PlayerRegistered { player: Player, timestamp: String },
    BetPlaced { bet: Bet, timestamp: String },
    WheelSpun { result: SpinResult, timestamp: String },
    BetsSettled { timestamp: String },
}

#[derive(Debug, Clone)]
pub enum Message {
    RegisterPlayerRequest { name: String, initial_balance: u64 },
    PlayerRegisteredConfirm { player: Player, success: bool, error_message: Option<String> },
    PlaceBetRequest { bet_type: BetType, numbers: Vec<u8>, amount: u64, player_name: String },
    BetPlacedConfirm { bet: Bet, success: bool, new_balance: u64, error_message: Option<String> },
    SpinResultBroadcast { result: SpinResult, player_payout: u64, new_balance: u64, won: bool },
    BalanceUpdate { new_balance: u64, reason: String },
    SpinWheelRequest { player_chain_id: String },
}

} // verus!
