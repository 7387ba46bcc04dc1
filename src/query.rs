//! The read surface offered to the presentation layer.

use crate::settlement::capped;
use crate::state::RouletteState;
use crate::types::{Bet, Player, PlayerView};
use vstd::prelude::*;

verus! {

/// The sum of the wagers in `bets`.
pub open spec fn pot(bets: Seq<Bet>) -> int
    decreases bets.len(),
{
    if bets.len() == 0 {
        0
    } else {
        pot(bets.drop_last()) + bets.last().amount
    }
}

proof fn lemma_pot_nonneg(bets: Seq<Bet>)
    ensures
        pot(bets) >= 0,
    decreases bets.len(),
{
    if bets.len() > 0 {
        lemma_pot_nonneg(bets.drop_last());
    }
}

/// The views of a list of players.
pub open spec fn player_views(ps: Seq<Player>) -> Seq<PlayerView> {
    ps.map_values(|p: Player| p@)
}

impl RouletteState {
    /// The player registered under `chain_id`, if any.
    pub fn player(&self, chain_id: &String) -> (r: Option<Player>)
        requires
            self.wf(),
        ensures
            r is None <==> !self.ledger().contains_key(chain_id@),
            r matches Some(p) ==> p@ == self.ledger()[chain_id@],
    {
        match self.find_player(chain_id) {
            Some(i) => Some(self.players[i].copied()),
            None => None,
        }
    }

    /// The balance of the player registered under `chain_id`, or 0.
    pub fn player_balance(&self, chain_id: &String) -> (r: u64)
        requires
            self.wf(),
        ensures
            r == if self.ledger().contains_key(chain_id@) {
                self.ledger()[chain_id@].balance
            } else {
                0
            },
    {
        match self.find_player(chain_id) {
            Some(i) => self.players[i].balance,
            None => 0,
        }
    }

    /// Every registered player, in order of registration.
    pub fn all_players(&self) -> (r: Vec<Player>)
        ensures
            player_views(r@) == player_views(self.players@),
    {
        let mut out: Vec<Player> = Vec::new();
        let mut i: usize = 0;
        while i < self.players.len()
            invariant
                0 <= i <= self.players@.len(),
                player_views(out@) == player_views(self.players@.take(i as int)),
            decreases self.players@.len() - i,
        {
            let p = self.players[i].copied();
            proof {
                assert(player_views(out@.push(p)) =~= player_views(out@).push(p@));
                assert(player_views(self.players@.take(i + 1)) =~= player_views(
                    self.players@.take(i as int),
                ).push(self.players@[i as int]@));
            }
            out.push(p);
            i = i + 1;
        }
        assert(self.players@.take(self.players@.len() as int) =~= self.players@);
        out
    }

    /// The total wagered in the open round, saturating at the largest `u64`.
    pub fn total_pot(&self) -> (r: u64)
        ensures
            r == capped(pot(self.game.current_bets@)),
    {
        let ghost bets = self.game.current_bets@;
        let mut total: u64 = 0;
        let mut i: usize = 0;
        while i < self.game.current_bets.len()
            invariant
                0 <= i <= bets.len(),
                self.game.current_bets@ == bets,
                total == capped(pot(bets.take(i as int))),
            decreases bets.len() - i,
        {
            proof {
                assert(bets.take(i + 1).drop_last() =~= bets.take(i as int));
                lemma_pot_nonneg(bets.take(i as int));
            }
            total = total.saturating_add(self.game.current_bets[i].amount);
            i = i + 1;
        }
        assert(bets.take(bets.len() as int) =~= bets);
        total
    }
}

} // verus!
