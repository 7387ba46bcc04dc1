//! The settlement engine: pays out every open bet against the winning
//! pocket, closes the round, and builds one notice per participating chain.

use crate::state::{ids_unique, ledger, with_balance, RouletteState, HISTORY_LEN};
use crate::types::{winner_views, Bet, Player, PlayerView, SpinResult, Winner, WinnerView};
use crate::wheel::{color_of, get_color, multiplier, wins};
use vstd::prelude::*;

verus! {

/// `x` limited to the range of `u64`: money amounts saturate rather than wrap.
pub open spec fn capped(x: int) -> u64 {
    if x > u64::MAX {
        u64::MAX
    } else if x < 0 {
        0
    } else {
        x as u64
    }
}

/// What a bet pays when the ball lands on `n`: the wager plus the wager
/// times the multiplier if it wins, nothing if it loses.
pub open spec fn payout_of(b: Bet, n: u8) -> u64 {
    if wins(b.bet_type, n, b.numbers@) {
        capped(b.amount + b.amount * multiplier(b.bet_type))
    } else {
        0
    }
}

/// The ledger after crediting each winning bet, in order.
pub open spec fn settled_ledger(l: Map<Seq<char>, PlayerView>, bets: Seq<Bet>, n: u8) -> Map<
    Seq<char>,
    PlayerView,
>
    decreases bets.len(),
{
    if bets.len() == 0 {
        l
    } else {
        let prev = settled_ledger(l, bets.drop_last(), n);
        let b = bets.last();
        let id = b.player_chain_id@;
        if wins(b.bet_type, n, b.numbers@) && prev.contains_key(id) {
            prev.insert(
                id,
                with_balance(prev[id], capped(prev[id].balance + payout_of(b, n))),
            )
        } else {
            prev
        }
    }
}

/// The receipts of the winning bets of registered players, in order.
pub open spec fn winners_of(l: Map<Seq<char>, PlayerView>, bets: Seq<Bet>, n: u8) -> Seq<
    WinnerView,
>
    decreases bets.len(),
{
    if bets.len() == 0 {
        Seq::empty()
    } else {
        let prev = winners_of(l, bets.drop_last(), n);
        let b = bets.last();
        if wins(b.bet_type, n, b.numbers@) && l.contains_key(b.player_chain_id@) {
            prev.push(
                WinnerView {
                    player_chain_id: b.player_chain_id@,
                    player_name: b.player_name@,
                    bet_type: b.bet_type,
                    bet_amount: b.amount,
                    payout: payout_of(b, n),
                },
            )
        } else {
            prev
        }
    }
}

/// The chains that placed the bets, each once, in order of their first bet.
pub open spec fn distinct_chains(bets: Seq<Bet>) -> Seq<Seq<char>>
    decreases bets.len(),
{
    if bets.len() == 0 {
        Seq::empty()
    } else {
        let prev = distinct_chains(bets.drop_last());
        let id = bets.last().player_chain_id@;
        if prev.contains(id) {
            prev
        } else {
            prev.push(id)
        }
    }
}

/// The sum of what the bets of chain `id` pay.
pub open spec fn total_payout(bets: Seq<Bet>, id: Seq<char>, n: u8) -> int
    decreases bets.len(),
{
    if bets.len() == 0 {
        0
    } else {
        total_payout(bets.drop_last(), id, n) + if bets.last().player_chain_id@ == id {
            payout_of(bets.last(), n) as int
        } else {
            0
        }
    }
}

/// Whether some bet of chain `id` wins.
pub open spec fn won_any(bets: Seq<Bet>, id: Seq<char>, n: u8) -> bool {
    exists|k: int|
        0 <= k < bets.len() && #[trigger] bets[k].player_chain_id@ == id && wins(
            bets[k].bet_type,
            n,
            bets[k].numbers@,
        )
}

/// `h` with `n` appended, dropping the oldest entry beyond ten.
pub open spec fn bounded_push(h: Seq<u8>, n: u8) -> Seq<u8> {
    if h.len() + 1 > HISTORY_LEN {
        h.push(n).drop_first()
    } else {
        h.push(n)
    }
}

/// The aggregated outcome of a spin for one participating chain.
#[derive(Debug, Clone)]
pub struct SettlementNotice {
    pub chain_id: String,
    pub payout: u64,
    pub new_balance: u64,
    pub won: bool,
}

/// The notices owed after settling `bets` on `n` from ledger `l`: one per
/// chain, in order of first bet.
pub open spec fn notices_fit(
    r: Seq<SettlementNotice>,
    l: Map<Seq<char>, PlayerView>,
    bets: Seq<Bet>,
    n: u8,
) -> bool {
    &&& r.len() == distinct_chains(bets).len()
    &&& forall|k: int|
        0 <= k < r.len() ==> {
            let id = #[trigger] r[k].chain_id@;
            &&& id == distinct_chains(bets)[k]
            &&& r[k].payout == capped(total_payout(bets, id, n))
            &&& r[k].won == won_any(bets, id, n)
            &&& r[k].new_balance == settled_ledger(l, bets, n)[id].balance
        }
}

/// A settled history keeps at most ten results: the previous ones with the
/// new result appended, the oldest dropped once ten were held.
pub proof fn lemma_history_bounded(h: Seq<u8>, n: u8)
    requires
        h.len() <= HISTORY_LEN,
    ensures
        bounded_push(h, n).len() <= HISTORY_LEN,
        bounded_push(h, n).last() == n,
        h.len() < HISTORY_LEN ==> bounded_push(h, n) == h.push(n),
        h.len() == HISTORY_LEN ==> bounded_push(h, n) == h.drop_first().push(n),
{
    if h.len() == HISTORY_LEN {
        assert(h.push(n).drop_first() =~= h.drop_first().push(n));
    }
}

/// What a bet pays as a whole number, before any cap.
pub open spec fn raw_payout(b: Bet, n: u8) -> int {
    if wins(b.bet_type, n, b.numbers@) {
        b.amount + b.amount * multiplier(b.bet_type)
    } else {
        0
    }
}

/// The sum of what the bets of chain `id` pay, before any cap.
pub open spec fn raw_total_payout(bets: Seq<Bet>, id: Seq<char>, n: u8) -> int
    decreases bets.len(),
{
    if bets.len() == 0 {
        0
    } else {
        raw_total_payout(bets.drop_last(), id, n) + if bets.last().player_chain_id@ == id {
            raw_payout(bets.last(), n)
        } else {
            0
        }
    }
}

proof fn lemma_raw_total_nonneg(bets: Seq<Bet>, id: Seq<char>, n: u8)
    ensures
        raw_total_payout(bets, id, n) >= 0,
    decreases bets.len(),
{
    if bets.len() > 0 {
        lemma_raw_total_nonneg(bets.drop_last(), id, n);
        let b = bets.last();
        assert(b.amount * multiplier(b.bet_type) >= 0) by (nonlinear_arith);
    }
}

/// Where no balance would pass the largest `u64`, settlement credits a
/// registered player exactly the old balance plus the sum of the payouts
/// (wager plus wager times multiplier) of that player's winning bets.
pub proof fn lemma_settlement_credits_exact_sum(
    l: Map<Seq<char>, PlayerView>,
    bets: Seq<Bet>,
    n: u8,
    q: Seq<char>,
)
    requires
        l.contains_key(q),
        l[q].balance + raw_total_payout(bets, q, n) <= u64::MAX,
    ensures
        settled_ledger(l, bets, n).contains_key(q),
        settled_ledger(l, bets, n)[q] == with_balance(l[q], (l[q].balance + raw_total_payout(bets, q, n)) as u64),
    decreases bets.len(),
{
    if bets.len() > 0 {
        let b = bets.last();
        assert(b.amount * multiplier(b.bet_type) >= 0) by (nonlinear_arith);
        lemma_raw_total_nonneg(bets.drop_last(), q, n);
        lemma_settlement_credits_exact_sum(l, bets.drop_last(), n, q);
    }
}

/// Each bet is settled once: a registered player's balance after settlement
/// is the old balance plus the sum of what that player's bets pay (capped at
/// the largest `u64`); the player's other fields stay as they were.
pub proof fn lemma_settlement_credits_sum(
    l: Map<Seq<char>, PlayerView>,
    bets: Seq<Bet>,
    n: u8,
    q: Seq<char>,
)
    requires
        l.contains_key(q),
    ensures
        settled_ledger(l, bets, n).contains_key(q),
        settled_ledger(l, bets, n)[q] == with_balance(
            l[q],
            capped(l[q].balance + total_payout(bets, q, n)),
        ),
    decreases bets.len(),
{
    if bets.len() > 0 {
        lemma_settlement_credits_sum(l, bets.drop_last(), n, q);
        lemma_total_payout_nonneg(bets.drop_last(), q, n);
    }
}

/// What `bet` pays when the ball lands on `number`.
pub fn bet_payout(bet: &Bet, number: u8) -> (r: u64)
    ensures
        r == payout_of(*bet, number),
{
    if !bet.bet_type.is_winner(number, bet.numbers.as_slice()) {
        return 0;
    }
    let m = bet.bet_type.payout_multiplier();
    let a = bet.amount;
    let q = (u64::MAX - a) / m;
    if a <= q {
        proof {
            assert(a * m <= u64::MAX - a) by (nonlinear_arith)
                requires
                    a as int <= q as int,
                    q as int == (u64::MAX - a) as int / m as int,
                    m > 0,
            ;
        }
        a + a * m
    } else {
        proof {
            assert(a * m > u64::MAX - a) by (nonlinear_arith)
                requires
                    a as int > q as int,
                    q as int == (u64::MAX - a) as int / m as int,
                    m > 0,
            ;
        }
        u64::MAX
    }
}

/// Crediting keeps the set of registered chains.
pub proof fn lemma_settled_dom(l: Map<Seq<char>, PlayerView>, bets: Seq<Bet>, n: u8)
    ensures
        settled_ledger(l, bets, n).dom() == l.dom(),
    decreases bets.len(),
{
    if bets.len() > 0 {
        lemma_settled_dom(l, bets.drop_last(), n);
        let prev = settled_ledger(l, bets.drop_last(), n);
        assert(settled_ledger(l, bets, n).dom() =~= prev.dom());
    }
}

/// The character sequences of a list of strings.
pub open spec fn string_views(v: Seq<String>) -> Seq<Seq<char>> {
    v.map_values(|x: String| x@)
}

fn position_of(v: &Vec<String>, s: &String) -> (r: Option<usize>)
    ensures
        r is None <==> !string_views(v@).contains(s@),
        r matches Some(i) ==> i < v@.len() && v@[i as int]@ == s@,
{
    let mut i: usize = 0;
    while i < v.len()
        invariant
            0 <= i <= v@.len(),
            forall|j: int| 0 <= j < i ==> #[trigger] v@[j]@ != s@,
        decreases v@.len() - i,
    {
        if v[i] == *s {
            assert(string_views(v@)[i as int] == s@);
            return Some(i);
        }
        i = i + 1;
    }
    proof {
        if string_views(v@).contains(s@) {
            let j = choose|j: int|
                0 <= j < v@.len() && #[trigger] string_views(v@)[j] == s@;
            assert(v@[j]@ == s@);
        }
    }
    None
}

impl RouletteState {
    /// The sole round-clearing transition: credits every winning bet,
    /// appends the result to the bounded history, records it as the last
    /// result, clears the bets, the deadline and the spinning flag, and
    /// returns one notice per chain that had bets.
    pub fn settle_bets(&mut self, result: u8, timestamp: String) -> (r: Vec<SettlementNotice>)
        requires
            old(self).wf(),
        ensures
            final(self).wf(),
            final(self).ledger() == settled_ledger(
                old(self).ledger(),
                old(self).game.current_bets@,
                result,
            ),
            !final(self).game.is_spinning,
            final(self).game.current_bets@.len() == 0,
            final(self).game.betting_end_time.is_none(),
            final(self).game.history@ == bounded_push(old(self).game.history@, result),
            final(self).game.last_result matches Some(sr) && sr@.number == result && sr@.color
                == color_of(result) && sr@.timestamp == timestamp@ && sr@.winners == winners_of(
                old(self).ledger(),
                old(self).game.current_bets@,
                result,
            ),
            notices_fit(r@, old(self).ledger(), old(self).game.current_bets@, result),
            final(self).is_host == old(self).is_host,
            final(self).host_chain_id == old(self).host_chain_id,
            final(self).my_player == old(self).my_player,
    {
        let ghost l0 = self.ledger();
        let ghost bets = self.game.current_bets@;
        let n_bets = self.game.current_bets.len();
        let mut winners: Vec<Winner> = Vec::new();
        let mut k: usize = 0;
        while k < n_bets
            invariant
                0 <= k <= n_bets,
                n_bets == bets.len(),
                self.game.current_bets@ == bets,
                self.game == old(self).game,
                self.is_host == old(self).is_host,
                self.host_chain_id == old(self).host_chain_id,
                self.my_player == old(self).my_player,
                l0 == old(self).ledger(),
                bets == old(self).game.current_bets@,
                ids_unique(self.players@),
                self.ledger() == settled_ledger(l0, bets.take(k as int), result),
                winner_views(winners@) == winners_of(l0, bets.take(k as int), result),
            decreases n_bets - k,
        {
            let bet = &self.game.current_bets[k];
            proof {
                assert(bets.take(k + 1).drop_last() =~= bets.take(k as int));
                assert(bets.take(k + 1).last() == bets[k as int]);
                lemma_settled_dom(l0, bets.take(k as int), result);
            }
            if bet.bet_type.is_winner(result, bet.numbers.as_slice()) {
                let payout = bet_payout(bet, result);
                match self.find_player(&bet.player_chain_id) {
                    Some(i) => {
                        let updated = Player {
                            chain_id: self.players[i].chain_id.clone(),
                            name: self.players[i].name.clone(),
                            balance: self.players[i].balance.saturating_add(payout),
                        };
                        proof {
                            crate::state::lemma_ledger_update(self.players@, i as int, updated);
                        }
                        self.players.set(i, updated);
                        let w = Winner {
                            player_chain_id: bet.player_chain_id.clone(),
                            player_name: bet.player_name.clone(),
                            bet_type: bet.bet_type,
                            bet_amount: bet.amount,
                            payout,
                        };
                        proof {
                            assert(winner_views(winners@.push(w)) =~= winner_views(winners@).push(
                                w@,
                            ));
                        }
                        winners.push(w);
                    },
                    None => {},
                }
            }
            k = k + 1;
        }
        proof {
            assert(bets.take(n_bets as int) =~= bets);
            lemma_settled_dom(l0, bets, result);
        }
        let notices = self.notices_for(result);
        let color = get_color(result);
        let spin_result = SpinResult { number: result, color, timestamp, winners };
        self.game.history.push(result);
        if self.game.history.len() > HISTORY_LEN {
            self.game.history.remove(0);
        }
        proof {
            assert(self.game.history@ =~= bounded_push(old(self).game.history@, result));
        }
        self.game.current_bets = Vec::new();
        self.game.last_result = Some(spin_result);
        self.game.is_spinning = false;
        self.game.betting_end_time = None;
        notices
    }

    /// One notice per chain with open bets: its total payout, its balance in
    /// the (already credited) ledger, and whether any of its bets won.
    fn notices_for(&self, result: u8) -> (r: Vec<SettlementNotice>)
        requires
            ids_unique(self.players@),
            forall|k: int|
                0 <= k < self.game.current_bets@.len() ==> #[trigger] self.ledger().contains_key(
                    self.game.current_bets@[k].player_chain_id@,
                ),
        ensures
            r@.len() == distinct_chains(self.game.current_bets@).len(),
            forall|k: int|
                0 <= k < r@.len() ==> {
                    let id = #[trigger] r@[k].chain_id@;
                    &&& id == distinct_chains(self.game.current_bets@)[k]
                    &&& r@[k].payout == capped(total_payout(self.game.current_bets@, id, result))
                    &&& r@[k].won == won_any(self.game.current_bets@, id, result)
                    &&& r@[k].new_balance == self.ledger()[id].balance
                },
    {
        let ghost bets = self.game.current_bets@;
        let n_bets = self.game.current_bets.len();
        // The distinct chains, in order of first bet: an ordered list rather than
        // a hash map, so that the notices go out in an order fixed by the bets.
        let mut chains: Vec<String> = Vec::new();
        let mut k: usize = 0;
        while k < n_bets
            invariant
                0 <= k <= n_bets,
                n_bets == bets.len(),
                self.game.current_bets@ == bets,
                string_views(chains@) == distinct_chains(bets.take(k as int)),
            decreases n_bets - k,
        {
            let id = &self.game.current_bets[k].player_chain_id;
            proof {
                assert(bets.take(k + 1).drop_last() =~= bets.take(k as int));
                assert(bets.take(k + 1).last() == bets[k as int]);
            }
            match position_of(&chains, id) {
                Some(_) => {},
                None => {
                    let c = id.clone();
                    proof {
                        assert(string_views(chains@.push(c)) =~= string_views(chains@).push(c@));
                    }
                    chains.push(c);
                },
            }
            k = k + 1;
        }
        proof {
            assert(bets.take(n_bets as int) =~= bets);
        }
        let mut out: Vec<SettlementNotice> = Vec::new();
        let mut c: usize = 0;
        while c < chains.len()
            invariant
                0 <= c <= chains@.len(),
                n_bets == bets.len(),
                self.game.current_bets@ == bets,
                ids_unique(self.players@),
                forall|k: int|
                    0 <= k < bets.len() ==> #[trigger] self.ledger().contains_key(
                        bets[k].player_chain_id@,
                    ),
                string_views(chains@) == distinct_chains(bets),
                out@.len() == c,
                forall|j: int|
                    0 <= j < c ==> {
                        let id = #[trigger] out@[j].chain_id@;
                        &&& id == distinct_chains(bets)[j]
                        &&& out@[j].payout == capped(total_payout(bets, id, result))
                        &&& out@[j].won == won_any(bets, id, result)
                        &&& out@[j].new_balance == self.ledger()[id].balance
                    },
            decreases chains@.len() - c,
        {
            let id = &chains[c];
            assert(string_views(chains@)[c as int] == id@);
            let mut total: u64 = 0;
            let mut won = false;
            let mut j: usize = 0;
            while j < n_bets
                invariant
                    0 <= j <= n_bets,
                    n_bets == bets.len(),
                    self.game.current_bets@ == bets,
                    total == capped(total_payout(bets.take(j as int), id@, result)),
                    won == won_any(bets.take(j as int), id@, result),
                decreases n_bets - j,
            {
                let bet = &self.game.current_bets[j];
                proof {
                    assert(bets.take(j + 1).drop_last() =~= bets.take(j as int));
                    assert(bets.take(j + 1).last() == bets[j as int]);
                }
                let wins_now = bet.player_chain_id == *id && bet.bet_type.is_winner(
                    result,
                    bet.numbers.as_slice(),
                );
                proof {
                    lemma_total_payout_nonneg(bets.take(j as int), id@, result);
                    assert(total_payout(bets.take(j + 1), id@, result) == total_payout(
                        bets.take(j as int),
                        id@,
                        result,
                    ) + if bets[j as int].player_chain_id@ == id@ {
                        payout_of(bets[j as int], result) as int
                    } else {
                        0
                    });
                }
                if bet.player_chain_id == *id {
                    total = total.saturating_add(bet_payout(bet, result));
                }
                proof {
                    let t = bets.take(j as int);
                    let t1 = bets.take(j + 1);
                    if won_any(t1, id@, result) {
                        let q = choose|q: int|
                            0 <= q < t1.len() && #[trigger] t1[q].player_chain_id@ == id@ && wins(
                                t1[q].bet_type,
                                result,
                                t1[q].numbers@,
                            );
                        if q < j {
                            assert(t[q] == t1[q]);
                        }
                    }
                    if won_any(t, id@, result) {
                        let q = choose|q: int|
                            0 <= q < t.len() && #[trigger] t[q].player_chain_id@ == id@ && wins(
                                t[q].bet_type,
                                result,
                                t[q].numbers@,
                            );
                        assert(t1[q] == t[q]);
                    }
                    if wins_now {
                        assert(t1[j as int] == bets[j as int]);
                    }
                }
                won = won || wins_now;
                j = j + 1;
            }
            proof {
                assert(bets.take(n_bets as int) =~= bets);
            }
            let balance = match self.find_player(id) {
                Some(i) => self.players[i].balance,
                None => 0,
            };
            proof {
                lemma_distinct_chains_from_bets(bets, c as int);
            }
            out.push(SettlementNotice { chain_id: id.clone(), payout: total, new_balance: balance, won });
            c = c + 1;
        }
        out
    }
}

proof fn lemma_total_payout_nonneg(bets: Seq<Bet>, id: Seq<char>, n: u8)
    ensures
        total_payout(bets, id, n) >= 0,
    decreases bets.len(),
{
    if bets.len() > 0 {
        lemma_total_payout_nonneg(bets.drop_last(), id, n);
    }
}

/// Every chain listed as distinct placed one of the bets.
proof fn lemma_distinct_chains_from_bets(bets: Seq<Bet>, k: int)
    requires
        0 <= k < distinct_chains(bets).len(),
    ensures
        exists|q: int|
            0 <= q < bets.len() && #[trigger] bets[q].player_chain_id@ == distinct_chains(bets)[k],
    decreases bets.len(),
{
    let prev = distinct_chains(bets.drop_last());
    if k < prev.len() {
        lemma_distinct_chains_from_bets(bets.drop_last(), k);
        let q = choose|q: int|
            0 <= q < bets.drop_last().len() && #[trigger] bets.drop_last()[q].player_chain_id@
                == prev[k];
        assert(bets[q] == bets.drop_last()[q]);
    } else {
        assert(bets[bets.len() - 1].player_chain_id@ == distinct_chains(bets)[k]);
    }
}

} // verus!
