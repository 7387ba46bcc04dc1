//! The host's account ledger and round, and the player chain's cache.
//!
//! Players are held in a vector whose chain identities are unique; the
//! ledger is its reading as a map from chain identity to player record.

use crate::types::{Bet, GameState, Player, PlayerView};
use vstd::prelude::*;

verus! {

/// Most recent results kept in the round's history.
pub const HISTORY_LEN: usize = 10;

/// Length of a betting window, in milliseconds.
pub const BETTING_WINDOW_MS: u64 = 30_000;

pub open spec fn has_player(ps: Seq<Player>, id: Seq<char>) -> bool {
    exists|i: int| 0 <= i < ps.len() && #[trigger] ps[i].chain_id@ == id
}

pub open spec fn ids_unique(ps: Seq<Player>) -> bool {
    forall|i: int, j: int|
        0 <= i < ps.len() && 0 <= j < ps.len() && #[trigger] ps[i].chain_id@
            == #[trigger] ps[j].chain_id@ ==> i == j
}

pub open spec fn index_of(ps: Seq<Player>, id: Seq<char>) -> int {
    choose|i: int| 0 <= i < ps.len() && #[trigger] ps[i].chain_id@ == id
}

/// The ledger: each registered chain identity with its player record.
pub open spec fn ledger(ps: Seq<Player>) -> Map<Seq<char>, PlayerView> {
    Map::new(|id: Seq<char>| has_player(ps, id), |id: Seq<char>| ps[index_of(ps, id)]@)
}

/// A player record with another balance.
pub open spec fn with_balance(p: PlayerView, balance: u64) -> PlayerView {
    PlayerView { chain_id: p.chain_id, name: p.name, balance }
}

/// The ledger after debiting `amount` from the player registered as `id`.
pub open spec fn debited(l: Map<Seq<char>, PlayerView>, id: Seq<char>, amount: u64) -> Map<
    Seq<char>,
    PlayerView,
> {
    l.insert(id, with_balance(l[id], (l[id].balance - amount) as u64))
}

/// The ledger after registering `p`, unless its identity is already taken.
pub open spec fn registered(l: Map<Seq<char>, PlayerView>, p: PlayerView) -> Map<
    Seq<char>,
    PlayerView,
> {
    if l.contains_key(p.chain_id) {
        l
    } else {
        l.insert(p.chain_id, p)
    }
}

/// A cached ledger after the host reports balance `b` for `id`: an entry
/// already cached takes the reported balance; nothing else changes.
pub open spec fn with_reported_balance(l: Map<Seq<char>, PlayerView>, id: Seq<char>, b: u64) -> Map<
    Seq<char>,
    PlayerView,
> {
    if l.contains_key(id) {
        l.insert(id, with_balance(l[id], b))
    } else {
        l
    }
}

/// The total that chain `id` wagered across `bets`.
pub open spec fn wagered(bets: Seq<Bet>, id: Seq<char>) -> int
    decreases bets.len(),
{
    if bets.len() == 0 {
        0
    } else {
        wagered(bets.drop_last(), id) + if bets.last().player_chain_id@ == id {
            bets.last().amount as int
        } else {
            0
        }
    }
}

/// The ledger after debiting each of `bets` in turn.
pub open spec fn after_bets(l: Map<Seq<char>, PlayerView>, bets: Seq<Bet>) -> Map<
    Seq<char>,
    PlayerView,
>
    decreases bets.len(),
{
    if bets.len() == 0 {
        l
    } else {
        debited(after_bets(l, bets.drop_last()), bets.last().player_chain_id@, bets.last().amount)
    }
}

/// Whether each of `bets`, when it came, was from a registered player whose
/// balance covered it: the condition under which a bet is accepted.
pub open spec fn all_covered(l: Map<Seq<char>, PlayerView>, bets: Seq<Bet>) -> bool
    decreases bets.len(),
{
    if bets.len() == 0 {
        true
    } else {
        let prev = after_bets(l, bets.drop_last());
        let b = bets.last();
        all_covered(l, bets.drop_last()) && prev.contains_key(b.player_chain_id@)
            && prev[b.player_chain_id@].balance >= b.amount
    }
}

/// Over any sequence of accepted bets, what was deducted from a player's
/// balance is exactly the sum of that player's wagers, and the balance
/// never drops below zero.
pub proof fn lemma_debits_match_wagers(l: Map<Seq<char>, PlayerView>, bets: Seq<Bet>, id: Seq<char>)
    requires
        all_covered(l, bets),
        l.contains_key(id),
    ensures
        after_bets(l, bets).contains_key(id),
        l[id].balance - after_bets(l, bets)[id].balance == wagered(bets, id),
        after_bets(l, bets)[id].balance >= 0,
    decreases bets.len(),
{
    if bets.len() > 0 {
        lemma_debits_match_wagers(l, bets.drop_last(), id);
    }
}

/// The view of an optional player record.
pub open spec fn own_view(my: Option<Player>) -> Option<PlayerView> {
    match my {
        Some(p) => Some(p@),
        None => None,
    }
}

/// The chain's own cached player after the host reports balance `b` for
/// `id`: it takes the balance when it is the player reported on.
pub open spec fn own_after_report(my: Option<Player>, id: Seq<char>, b: u64) -> Option<PlayerView> {
    match my {
        Some(p) => if p.chain_id@ == id {
            Some(with_balance(p@, b))
        } else {
            Some(p@)
        },
        None => None,
    }
}

/// With unique identities, a player's position is the one holding its identity.
pub proof fn lemma_index_of(ps: Seq<Player>, i: int)
    requires
        ids_unique(ps),
        0 <= i < ps.len(),
    ensures
        index_of(ps, ps[i].chain_id@) == i,
        ledger(ps).contains_key(ps[i].chain_id@),
        ledger(ps)[ps[i].chain_id@] == ps[i]@,
{
    let id = ps[i].chain_id@;
    assert(has_player(ps, id));
    let j = index_of(ps, id);
    assert(ps[j].chain_id@ == id);
}

/// Appending a player with a new identity adds one ledger entry.
pub proof fn lemma_ledger_push(ps: Seq<Player>, p: Player)
    requires
        ids_unique(ps),
        !has_player(ps, p.chain_id@),
    ensures
        ids_unique(ps.push(p)),
        ledger(ps.push(p)) == ledger(ps).insert(p.chain_id@, p@),
{
    let qs = ps.push(p);
    assert(qs[ps.len() as int] == p);
    assert forall|i: int, j: int|
        0 <= i < qs.len() && 0 <= j < qs.len() && #[trigger] qs[i].chain_id@
            == #[trigger] qs[j].chain_id@ implies i == j by {
        if i < ps.len() && j < ps.len() {
            assert(qs[i] == ps[i] && qs[j] == ps[j]);
        } else if i < ps.len() {
            assert(qs[i] == ps[i]);
            assert(has_player(ps, p.chain_id@));
        } else if j < ps.len() {
            assert(qs[j] == ps[j]);
            assert(has_player(ps, p.chain_id@));
        }
    }
    let l = ledger(ps).insert(p.chain_id@, p@);
    assert forall|id: Seq<char>| #[trigger] ledger(qs).contains_key(id) == l.contains_key(id) by {
        if has_player(ps, id) {
            let i = choose|i: int| 0 <= i < ps.len() && #[trigger] ps[i].chain_id@ == id;
            assert(qs[i] == ps[i]);
        }
        if id == p.chain_id@ {
            assert(qs[ps.len() as int].chain_id@ == id);
        }
        if has_player(qs, id) && id != p.chain_id@ {
            let i = choose|i: int| 0 <= i < qs.len() && #[trigger] qs[i].chain_id@ == id;
            assert(qs[i] == ps[i]);
        }
    }
    assert forall|id: Seq<char>| #[trigger] ledger(qs).contains_key(id) implies ledger(qs)[id]
        == l[id] by {
        if id == p.chain_id@ {
            lemma_index_of(qs, ps.len() as int);
        } else {
            let i = index_of(qs, id);
            assert(qs[i] == ps[i]);
            lemma_index_of(qs, i);
            lemma_index_of(ps, i);
        }
    }
    assert(ledger(qs) =~= l);
}

/// Replacing the record at a position by one with the same identity changes
/// that one ledger entry.
pub proof fn lemma_ledger_update(ps: Seq<Player>, i: int, p: Player)
    requires
        ids_unique(ps),
        0 <= i < ps.len(),
        p.chain_id@ == ps[i].chain_id@,
    ensures
        ids_unique(ps.update(i, p)),
        ledger(ps.update(i, p)) == ledger(ps).insert(p.chain_id@, p@),
{
    let qs = ps.update(i, p);
    assert forall|a: int, b: int|
        0 <= a < qs.len() && 0 <= b < qs.len() && #[trigger] qs[a].chain_id@
            == #[trigger] qs[b].chain_id@ implies a == b by {
        assert(qs[a].chain_id@ == ps[a].chain_id@);
        assert(qs[b].chain_id@ == ps[b].chain_id@);
    }
    let l = ledger(ps).insert(p.chain_id@, p@);
    lemma_index_of(ps, i);
    assert forall|id: Seq<char>| #[trigger] ledger(qs).contains_key(id) == l.contains_key(id) by {
        if has_player(ps, id) {
            let j = choose|j: int| 0 <= j < ps.len() && #[trigger] ps[j].chain_id@ == id;
            assert(qs[j].chain_id@ == id);
        }
        if has_player(qs, id) {
            let j = choose|j: int| 0 <= j < qs.len() && #[trigger] qs[j].chain_id@ == id;
            assert(ps[j].chain_id@ == id);
        }
    }
    assert forall|id: Seq<char>| #[trigger] ledger(qs).contains_key(id) implies ledger(qs)[id]
        == l[id] by {
        let j = index_of(qs, id);
        lemma_index_of(qs, j);
        if j != i {
            assert(qs[j] == ps[j]);
            lemma_index_of(ps, j);
        }
    }
    assert(ledger(qs) =~= l);
}

/// Why a bet was not accepted.
#[derive(Debug, Clone, Copy, PartialEq, Eq, Structural)]
pub enum BetRejection {
    NotRegistered,
    InsufficientBalance,
    WheelSpinning,
}

/// Everything a chain keeps: on the host the ledger and the round; on a
/// player chain a cache of its own record and of the last round it heard of.
pub struct RouletteState {
    pub game: GameState,
    pub players: Vec<Player>,
    pub is_host: bool,
    pub host_chain_id: Option<String>,
    pub my_player: Option<Player>,
}

impl RouletteState {
    /// Identities are unique, every open bet belongs to a registered player,
    /// and the history holds at most ten results.
    pub open spec fn wf(&self) -> bool {
        &&& ids_unique(self.players@)
        &&& forall|k: int|
            0 <= k < self.game.current_bets@.len() ==> #[trigger] ledger(self.players@).contains_key(
                self.game.current_bets@[k].player_chain_id@,
            )
        &&& self.game.history@.len() <= HISTORY_LEN
    }

    pub open spec fn ledger(&self) -> Map<Seq<char>, PlayerView> {
        ledger(self.players@)
    }

    /// A host chain with an empty ledger and a fresh round.
    pub fn new_host() -> (r: RouletteState)
        ensures
            r.wf(),
            r.is_host,
            r.host_chain_id.is_none(),
            r.my_player.is_none(),
            r.ledger() == Map::<Seq<char>, PlayerView>::empty(),
            !r.game.is_spinning,
            r.game.current_bets@.len() == 0,
            r.game.last_result.is_none(),
            r.game.history@.len() == 0,
            r.game.betting_end_time.is_none(),
    {
        let r = RouletteState {
            game: GameState::new(),
            players: Vec::new(),
            is_host: true,
            host_chain_id: None,
            my_player: None,
        };
        assert(r.ledger() =~= Map::<Seq<char>, PlayerView>::empty());
        r
    }

    /// A player chain relaying to `host`, with nothing cached yet.
    pub fn new_player(host: String) -> (r: RouletteState)
        ensures
            r.wf(),
            !r.is_host,
            r.host_chain_id == Some(host),
            r.my_player.is_none(),
            r.ledger() == Map::<Seq<char>, PlayerView>::empty(),
            !r.game.is_spinning,
            r.game.current_bets@.len() == 0,
            r.game.last_result.is_none(),
            r.game.history@.len() == 0,
            r.game.betting_end_time.is_none(),
    {
        let r = RouletteState {
            game: GameState::new(),
            players: Vec::new(),
            is_host: false,
            host_chain_id: Some(host),
            my_player: None,
        };
        assert(r.ledger() =~= Map::<Seq<char>, PlayerView>::empty());
        r
    }

    /// The position of the player registered under `id`, if any.
    pub fn find_player(&self, id: &String) -> (r: Option<usize>)
        requires
            ids_unique(self.players@),
        ensures
            r.is_none() <==> !self.ledger().contains_key(id@),
            r matches Some(i) ==> i < self.players@.len() && self.players@[i as int].chain_id@
                == id@ && self.ledger()[id@] == self.players@[i as int]@,
    {
        let mut i: usize = 0;
        while i < self.players.len()
            invariant
                0 <= i <= self.players@.len(),
                ids_unique(self.players@),
                forall|j: int| 0 <= j < i ==> #[trigger] self.players@[j].chain_id@ != id@,
            decreases self.players@.len() - i,
        {
            if self.players[i].chain_id == *id {
                proof {
                    lemma_index_of(self.players@, i as int);
                }
                return Some(i);
            }
            i = i + 1;
        }
        None
    }

    /// Stores a new player unless one is already registered under its identity.
    /// Returns whether it was stored.
    pub fn register_player(&mut self, player: Player) -> (r: bool)
        requires
            old(self).wf(),
        ensures
            final(self).wf(),
            r == !old(self).ledger().contains_key(player.chain_id@),
            final(self).ledger() == registered(old(self).ledger(), player@),
            r ==> final(self).game == old(self).game && final(self).is_host == old(self).is_host
                && final(self).host_chain_id == old(self).host_chain_id && final(self).my_player
                == old(self).my_player,
            !r ==> *final(self) == *old(self),
    {
        match self.find_player(&player.chain_id) {
            Some(_) => false,
            None => {
                proof {
                    lemma_ledger_push(self.players@, player);
                    assert(forall|id: Seq<char>| #[trigger]
                        old(self).ledger().contains_key(id) ==> ledger(
                            self.players@.push(player),
                        ).contains_key(id));
                }
                self.players.push(player);
                true
            },
        }
    }

    /// The single place where a balance is debited: checks, in order, that
    /// the player is registered, can cover the wager, and that the wheel is
    /// not spinning; only then deducts the wager and appends the bet.
    /// Returns the new balance.
    pub fn accept_bet(&mut self, bet: Bet) -> (r: Result<u64, BetRejection>)
        requires
            old(self).wf(),
        ensures
            final(self).wf(),
            ({
                let id = bet.player_chain_id@;
                let l = old(self).ledger();
                if !l.contains_key(id) {
                    r == Err::<u64, BetRejection>(BetRejection::NotRegistered)
                } else if l[id].balance < bet.amount {
                    r == Err::<u64, BetRejection>(BetRejection::InsufficientBalance)
                } else if old(self).game.is_spinning {
                    r == Err::<u64, BetRejection>(BetRejection::WheelSpinning)
                } else {
                    r == Ok::<u64, BetRejection>((l[id].balance - bet.amount) as u64)
                }
            }),
            r is Err ==> *final(self) == *old(self),
            r matches Ok(nb) ==> {
                &&& final(self).ledger() == debited(old(self).ledger(), bet.player_chain_id@, bet.amount)
                &&& final(self).game.current_bets@ == old(self).game.current_bets@.push(bet)
                &&& final(self).game.is_spinning == old(self).game.is_spinning
                &&& final(self).game.last_result == old(self).game.last_result
                &&& final(self).game.history == old(self).game.history
                &&& final(self).game.betting_end_time == old(self).game.betting_end_time
                &&& final(self).is_host == old(self).is_host
                &&& final(self).host_chain_id == old(self).host_chain_id
                &&& final(self).my_player == old(self).my_player
            },
    {
        let i = match self.find_player(&bet.player_chain_id) {
            Some(i) => i,
            None => return Err(BetRejection::NotRegistered),
        };
        if self.players[i].balance < bet.amount {
            return Err(BetRejection::InsufficientBalance);
        }
        if self.game.is_spinning {
            return Err(BetRejection::WheelSpinning);
        }
        let new_balance = self.players[i].balance - bet.amount;
        let updated = Player {
            chain_id: self.players[i].chain_id.clone(),
            name: self.players[i].name.clone(),
            balance: new_balance,
        };
        proof {
            lemma_ledger_update(self.players@, i as int, updated);
        }
        self.players.set(i, updated);
        proof {
            assert forall|k: int| 0 <= k < old(self).game.current_bets@.len() implies #[trigger] ledger(
                self.players@,
            ).contains_key(old(self).game.current_bets@[k].player_chain_id@) by {
                assert(old(self).ledger().contains_key(old(self).game.current_bets@[k].player_chain_id@));
            }
        }
        self.game.current_bets.push(bet);
        proof {
            assert forall|k: int| 0 <= k < self.game.current_bets@.len() implies #[trigger] ledger(
                self.players@,
            ).contains_key(self.game.current_bets@[k].player_chain_id@) by {
                if k < old(self).game.current_bets@.len() {
                    assert(self.game.current_bets@[k] == old(self).game.current_bets@[k]);
                }
            }
        }
        Ok(new_balance)
    }

    /// Opens a betting window ending thirty seconds after `now_micros`.
    /// Advisory only: it blocks nothing and starts no spin.
    pub fn start_round(&mut self, now_micros: u64)
        requires
            old(self).wf(),
        ensures
            final(self).wf(),
            final(self).game.betting_end_time == Some((now_micros / 1000 + BETTING_WINDOW_MS) as u64),
            final(self).game.is_spinning == old(self).game.is_spinning,
            final(self).game.current_bets == old(self).game.current_bets,
            final(self).game.last_result == old(self).game.last_result,
            final(self).game.history == old(self).game.history,
            final(self).players == old(self).players,
            final(self).is_host == old(self).is_host,
            final(self).host_chain_id == old(self).host_chain_id,
            final(self).my_player == old(self).my_player,
    {
        self.game.betting_end_time = Some(now_micros / 1000 + BETTING_WINDOW_MS);
    }

    /// The single guarded entry into spinning: succeeds only when the wheel
    /// is idle and there are bets, and then sets the flag.
    pub fn begin_spin(&mut self) -> (r: bool)
        requires
            old(self).wf(),
        ensures
            final(self).wf(),
            r == (!old(self).game.is_spinning && old(self).game.current_bets@.len() > 0),
            !r ==> *final(self) == *old(self),
            r ==> final(self).game.is_spinning && final(self).game.current_bets
                == old(self).game.current_bets && final(self).game.last_result
                == old(self).game.last_result && final(self).game.history == old(self).game.history
                && final(self).game.betting_end_time == old(self).game.betting_end_time
                && final(self).players == old(self).players && final(self).is_host
                == old(self).is_host && final(self).host_chain_id == old(self).host_chain_id
                && final(self).my_player == old(self).my_player,
    {
        if self.game.is_spinning || self.game.current_bets.len() == 0 {
            return false;
        }
        self.game.is_spinning = true;
        true
    }

    /// Caches a player record the host confirmed: it replaces any cached
    /// record of the same identity and becomes this chain's own player.
    pub fn cache_player(&mut self, player: Player)
        requires
            old(self).wf(),
        ensures
            final(self).wf(),
            final(self).ledger() == old(self).ledger().insert(player.chain_id@, player@),
            final(self).my_player matches Some(p) && p@ == player@,
            final(self).game == old(self).game,
            final(self).is_host == old(self).is_host,
            final(self).host_chain_id == old(self).host_chain_id,
    {
        let mine = player.copied();
        match self.find_player(&player.chain_id) {
            Some(i) => {
                proof {
                    lemma_ledger_update(self.players@, i as int, player);
                }
                self.players.set(i, player);
            },
            None => {
                proof {
                    lemma_ledger_push(self.players@, player);
                }
                self.players.push(player);
            },
        }
        self.my_player = Some(mine);
    }

    /// Overwrites the cached balance of `id` with what the host reported,
    /// in the ledger and in the chain's own player record; an identity with
    /// no cached record is left alone.
    pub fn cache_balance(&mut self, id: &String, balance: u64)
        requires
            old(self).wf(),
        ensures
            final(self).wf(),
            final(self).ledger() == with_reported_balance(old(self).ledger(), id@, balance),
            own_view(final(self).my_player) == own_after_report(old(self).my_player, id@, balance),
            final(self).game == old(self).game,
            final(self).is_host == old(self).is_host,
            final(self).host_chain_id == old(self).host_chain_id,
    {
        let mine = match &self.my_player {
            Some(p) => if p.chain_id == *id {
                Some(Player { chain_id: p.chain_id.clone(), name: p.name.clone(), balance })
            } else {
                None
            },
            None => None,
        };
        match mine {
            Some(m) => {
                self.my_player = Some(m);
            },
            None => {},
        }
        match self.find_player(id) {
            Some(i) => {
                let updated = Player {
                    chain_id: self.players[i].chain_id.clone(),
                    name: self.players[i].name.clone(),
                    balance,
                };
                proof {
                    lemma_ledger_update(self.players@, i as int, updated);
                }
                self.players.set(i, updated);
            },
            None => {},
        }
    }
}

} // verus!
