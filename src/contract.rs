//! The chain-facing state machine. Each operation or incoming message is a
//! step from the current state to the next one, returning the effects the
//! runtime must carry out: messages to send and events to emit.
//!
//! A host chain owns the ledger and the round and validates every request;
//! a player chain relays its intents to the host and caches what the host
//! confirms.

use crate::outcome::{draw_pocket, drawn_pocket, POCKETS};
use crate::settlement::{
    bounded_push, capped, distinct_chains, settled_ledger, total_payout, winners_of, won_any,
};
use crate::state::{own_after_report, own_view, wagered, BetRejection, RouletteState};
use crate::types::{
    Bet, BetView, InstantiationArgument, Message, Operation, Player, PlayerView, RouletteEvent,
    SpinResultView,
};
use crate::wheel::color_of;
use vstd::prelude::*;

verus! {

broadcast use vstd::string::group_string_axioms;

/// The decimal digit `d`, for `d < 10`.
pub open spec fn digit(d: nat) -> char {
    if d == 0 {
        '0'
    } else if d == 1 {
        '1'
    } else if d == 2 {
        '2'
    } else if d == 3 {
        '3'
    } else if d == 4 {
        '4'
    } else if d == 5 {
        '5'
    } else if d == 6 {
        '6'
    } else if d == 7 {
        '7'
    } else if d == 8 {
        '8'
    } else {
        '9'
    }
}

/// The decimal notation of `n`, without sign or leading zeros.
pub open spec fn decimal(n: nat) -> Seq<char>
    decreases n,
{
    if n < 10 {
        seq![digit(n)]
    } else {
        decimal(n / 10).push(digit(n % 10))
    }
}

/// The one-character string of the decimal digit `d`.
fn digit_str(d: u64) -> (r: &'static str)
    requires
        d < 10,
    ensures
        r@ == seq![digit(d as nat)],
{
    proof {
        reveal_strlit("0");
        reveal_strlit("1");
        reveal_strlit("2");
        reveal_strlit("3");
        reveal_strlit("4");
        reveal_strlit("5");
        reveal_strlit("6");
        reveal_strlit("7");
        reveal_strlit("8");
        reveal_strlit("9");
    }
    let r = if d == 0 {
        "0"
    } else if d == 1 {
        "1"
    } else if d == 2 {
        "2"
    } else if d == 3 {
        "3"
    } else if d == 4 {
        "4"
    } else if d == 5 {
        "5"
    } else if d == 6 {
        "6"
    } else if d == 7 {
        "7"
    } else if d == 8 {
        "8"
    } else {
        "9"
    };
    assert(r@ =~= seq![digit(d as nat)]);
    r
}

/// The decimal notation of `n`, as timestamps are written.
pub fn decimal_string(n: u64) -> (r: String)
    ensures
        r@ == decimal(n as nat),
    decreases n,
{
    if n < 10 {
        String::from_str(digit_str(n))
    } else {
        let mut s = decimal_string(n / 10);
        s.append(digit_str(n % 10));
        assert(s@ =~= decimal(n as nat));
        s
    }
}

/// What the runtime reads on behalf of a step: this chain's identity, the
/// current block height and the clock in microseconds.
pub struct ChainContext {
    pub chain_id: String,
    pub block_height: u64,
    pub now_micros: u64,
}

/// Something a step asks the runtime to do.
pub enum Effect {
    /// Send `message` to the chain named `to`.
    Send { to: String, message: Message },
    /// Emit `event` to observers; nothing depends on it.
    Emit { event: RouletteEvent },
}

/// The effects of a settlement of `bets` on pocket `n` from ledger `l`: one
/// broadcast per participating chain, in order of first bet, then the
/// spin and settlement events.
pub open spec fn announces(
    r: Seq<Effect>,
    l: Map<Seq<char>, PlayerView>,
    bets: Seq<Bet>,
    n: u8,
    sr: SpinResultView,
    timestamp: Seq<char>,
) -> bool {
    let chains = distinct_chains(bets);
    &&& r.len() == chains.len() + 2
    &&& forall|k: int|
        0 <= k < chains.len() ==> (#[trigger] r[k] matches Effect::Send {
            to,
            message: Message::SpinResultBroadcast { result, player_payout, new_balance, won },
        } && to@ == chains[k] && result@ == sr && player_payout == capped(
            total_payout(bets, chains[k], n),
        ) && won == won_any(bets, chains[k], n) && new_balance == settled_ledger(
            l,
            bets,
            n,
        )[chains[k]].balance)
    &&& r[chains.len() as int] matches Effect::Emit {
        event: RouletteEvent::WheelSpun { result, timestamp: t },
    } && result@ == sr && t@ == timestamp
    &&& r[chains.len() + 1int] matches Effect::Emit {
        event: RouletteEvent::BetsSettled { timestamp: t },
    } && t@ == timestamp
}

/// `new` is `old` after settling its bets on pocket `n`.
pub open spec fn settled(old: RouletteState, new: RouletteState, n: u8, timestamp: Seq<char>) -> bool {
    &&& new.ledger() == settled_ledger(old.ledger(), old.game.current_bets@, n)
    &&& !new.game.is_spinning
    &&& new.game.current_bets@.len() == 0
    &&& new.game.betting_end_time.is_none()
    &&& new.game.history@ == bounded_push(old.game.history@, n)
    &&& new.game.last_result matches Some(sr) && sr@.number == n && sr@.color == color_of(n)
        && sr@.timestamp == timestamp && sr@.winners == winners_of(
        old.ledger(),
        old.game.current_bets@,
        n,
    )
    &&& new.is_host == old.is_host
    &&& new.host_chain_id == old.host_chain_id
    &&& new.my_player == old.my_player
}

/// The name a player chain puts on its bets: that of its cached player, or
/// an empty name before registration is confirmed.
pub open spec fn cached_name(s: RouletteState) -> Seq<char> {
    match s.my_player {
        Some(p) => p.name@,
        None => Seq::empty(),
    }
}

/// How a player chain relays operation `op`: registration, bets and spin
/// requests go to the host as requests, one message each; the rest, or
/// anything on a chain that knows no host, goes nowhere.
pub open spec fn relayed(r: Seq<Effect>, s: RouletteState, ctx: ChainContext, op: Operation) -> bool {
    match s.host_chain_id {
        None => r.len() == 0,
        Some(h) => match op {
            Operation::RegisterPlayer { name, initial_balance, .. } => r.len() == 1 && (
            r[0] matches Effect::Send {
                to,
                message: Message::RegisterPlayerRequest { name: n, initial_balance: b },
            } && to@ == h@ && n@ == name@ && b == initial_balance),
            Operation::PlaceBet { bet_type, numbers, amount, .. } => r.len() == 1 && (
            r[0] matches Effect::Send {
                to,
                message: Message::PlaceBetRequest { bet_type: t, numbers: ns, amount: a, player_name },
            } && to@ == h@ && t == bet_type && ns@ == numbers@ && a == amount && player_name@
                == cached_name(s)),
            Operation::SpinWheel => r.len() == 1 && (r[0] matches Effect::Send {
                to,
                message: Message::SpinWheelRequest { player_chain_id },
            } && to@ == h@ && player_chain_id@ == ctx.chain_id@),
            _ => r.len() == 0,
        },
    }
}

/// Whether the host takes a bet of `amount` from `id`: the player is
/// registered, can cover it, and the wheel is idle.
pub open spec fn takes_bet(s: RouletteState, id: Seq<char>, amount: u64) -> bool {
    s.ledger().contains_key(id) && s.ledger()[id].balance >= amount && !s.game.is_spinning
}

/// `new` is `old` with the wager `b` debited and appended to the round.
pub open spec fn bet_taken(old: RouletteState, new: RouletteState, b: BetView) -> bool {
    &&& new.ledger() == crate::state::debited(old.ledger(), b.player_chain_id, b.amount)
    &&& new.game.current_bets@.len() == old.game.current_bets@.len() + 1
    &&& new.game.current_bets@.drop_last() == old.game.current_bets@
    &&& new.game.current_bets@.last()@ == b
    &&& new.game.is_spinning == old.game.is_spinning
    &&& new.game.last_result == old.game.last_result
    &&& new.game.history == old.game.history
    &&& new.game.betting_end_time == old.game.betting_end_time
    &&& new.is_host == old.is_host
    &&& new.host_chain_id == old.host_chain_id
    &&& new.my_player == old.my_player
}

/// `e` announces the registration of `p` at time `timestamp`.
pub open spec fn registration_event(e: Effect, p: PlayerView, timestamp: Seq<char>) -> bool {
    e matches Effect::Emit { event: RouletteEvent::PlayerRegistered { player, timestamp: t } }
        && player@ == p && t@ == timestamp
}

/// `e` announces the accepted bet `b` at time `timestamp`.
pub open spec fn bet_event(e: Effect, b: BetView, timestamp: Seq<char>) -> bool {
    e matches Effect::Emit { event: RouletteEvent::BetPlaced { bet, timestamp: t } } && bet@ == b
        && t@ == timestamp
}

/// What operation `op` does on the host. Rejected registrations and bets
/// change nothing and say nothing.
pub open spec fn host_operated(
    old: RouletteState,
    new: RouletteState,
    r: Seq<Effect>,
    ctx: ChainContext,
    op: Operation,
) -> bool {
    match op {
        Operation::RegisterPlayer { player_id, name, initial_balance } => {
            let p = PlayerView { chain_id: player_id@, name: name@, balance: initial_balance };
            &&& new.ledger() == crate::state::registered(old.ledger(), p)
            &&& new.game == old.game
            &&& new.is_host == old.is_host
            &&& new.host_chain_id == old.host_chain_id
            &&& new.my_player == old.my_player
            &&& if old.ledger().contains_key(player_id@) {
                r.len() == 0
            } else {
                r.len() == 1 && registration_event(r[0], p, decimal(ctx.now_micros as nat))
            }
        },
        Operation::PlaceBet { player_id, bet_type, numbers, amount } => {
            if takes_bet(old, player_id@, amount) {
                &&& bet_taken(
                    old,
                    new,
                    BetView {
                        player_chain_id: player_id@,
                        player_name: old.ledger()[player_id@].name,
                        bet_type,
                        numbers: numbers@,
                        amount,
                    },
                )
                &&& r.len() == 1
                &&& bet_event(
                    r[0],
                    BetView {
                        player_chain_id: player_id@,
                        player_name: old.ledger()[player_id@].name,
                        bet_type,
                        numbers: numbers@,
                        amount,
                    },
                    decimal(ctx.now_micros as nat),
                )
            } else {
                new == old && r.len() == 0
            }
        },
        Operation::StartRound => {
            &&& new.game.betting_end_time == Some(
                (ctx.now_micros / 1000 + crate::state::BETTING_WINDOW_MS) as u64,
            )
            &&& new.game.is_spinning == old.game.is_spinning
            &&& new.game.current_bets == old.game.current_bets
            &&& new.game.history == old.game.history
            &&& new.game.last_result == old.game.last_result
            &&& new.players == old.players
            &&& new.is_host == old.is_host
            &&& new.host_chain_id == old.host_chain_id
            &&& new.my_player == old.my_player
            &&& r.len() == 0
        },
        Operation::SpinWheel => {
            if !old.game.is_spinning && old.game.current_bets@.len() > 0 {
                let n = drawn_pocket(
                    old.game.current_bets@,
                    ctx.chain_id@,
                    ctx.block_height,
                    ctx.now_micros,
                );
                &&& settled(old, new, n, decimal(ctx.now_micros as nat))
                &&& new.game.last_result matches Some(sr) && announces(
                    r,
                    old.ledger(),
                    old.game.current_bets@,
                    n,
                    sr@,
                    decimal(ctx.now_micros as nat),
                )
            } else {
                new == old && r.len() == 0
            }
        },
        Operation::SettleBets { result } => if (result as u64) < crate::outcome::POCKETS {
            &&& settled(old, new, result, decimal(ctx.now_micros as nat))
            &&& new.game.last_result matches Some(sr) && announces(
                r,
                old.ledger(),
                old.game.current_bets@,
                result,
                sr@,
                decimal(ctx.now_micros as nat),
            )
        } else {
            new == old && r.len() == 0
        },
    }
}

/// The host's answer to a bet request of `amount` from `id`: whether it was
/// taken, the balance to report, and the reason for a refusal.
pub open spec fn bet_reply(s: RouletteState, id: Seq<char>, amount: u64) -> (bool, u64, Seq<char>) {
    let l = s.ledger();
    if !l.contains_key(id) {
        (false, 0, "Not registered"@)
    } else if l[id].balance < amount {
        (false, l[id].balance, "Insufficient balance"@)
    } else if s.game.is_spinning {
        (false, l[id].balance, "Wheel spinning"@)
    } else {
        (true, (l[id].balance - amount) as u64, Seq::empty())
    }
}

/// Whether `msg` reports to a player chain what its host decided.
pub open spec fn confirmation(msg: Message) -> bool {
    msg is PlayerRegisteredConfirm || msg is BetPlacedConfirm || msg is SpinResultBroadcast
        || msg is BalanceUpdate
}

/// What message `msg` from chain `origin` does. Requests are served only
/// by the host and always answered to their origin; confirmations only
/// write a player chain's cache, and only when they report success. A host
/// applies no confirmation: its ledger changes only through its own steps.
pub open spec fn messaged(
    old: RouletteState,
    new: RouletteState,
    r: Seq<Effect>,
    ctx: ChainContext,
    origin: Seq<char>,
    msg: Message,
) -> bool {
    if old.is_host && confirmation(msg) {
        new == old && r.len() == 0
    } else {
        match msg {
            Message::RegisterPlayerRequest { name, initial_balance } => {
                if !old.is_host {
                    new == old && r.len() == 0
                } else {
                    let fresh = !old.ledger().contains_key(origin);
                    let p = PlayerView { chain_id: origin, name: name@, balance: initial_balance };
                    &&& new.ledger() == crate::state::registered(old.ledger(), p)
                    &&& new.game == old.game
                    &&& new.is_host == old.is_host
                    &&& new.host_chain_id == old.host_chain_id
                    &&& new.my_player == old.my_player
                    &&& r.len() == if fresh {
                        2int
                    } else {
                        1int
                    }
                    &&& fresh ==> registration_event(r[0], p, decimal(ctx.now_micros as nat))
                    &&& r.last() matches Effect::Send {
                        to,
                        message: Message::PlayerRegisteredConfirm { player, success, error_message },
                    } && to@ == origin && success == fresh && player@ == (if fresh {
                        p
                    } else {
                        PlayerView { chain_id: origin, name: name@, balance: 0 }
                    }) && (if fresh {
                        error_message is None
                    } else {
                        error_message matches Some(e) && e@ == "Already registered"@
                    })
                }
            },
            Message::PlaceBetRequest { bet_type, numbers, amount, player_name } => {
                if !old.is_host {
                    new == old && r.len() == 0
                } else {
                    let b = BetView {
                        player_chain_id: origin,
                        player_name: player_name@,
                        bet_type,
                        numbers: numbers@,
                        amount,
                    };
                    let reply = bet_reply(old, origin, amount);
                    &&& if takes_bet(old, origin, amount) {
                        bet_taken(old, new, b)
                    } else {
                        new == old
                    }
                    &&& reply.0 == takes_bet(old, origin, amount)
                    &&& r.len() == if reply.0 {
                        2int
                    } else {
                        1int
                    }
                    &&& reply.0 ==> bet_event(r[0], b, decimal(ctx.now_micros as nat))
                    &&& r.last() matches Effect::Send {
                        to,
                        message: Message::BetPlacedConfirm { bet, success, new_balance, error_message },
                    } && to@ == origin && bet@ == b && success == reply.0 && new_balance == reply.1
                        && (if reply.0 {
                        error_message is None
                    } else {
                        error_message matches Some(e) && e@ == reply.2
                    })
                }
            },
            Message::PlayerRegisteredConfirm { player, success, .. } => {
                &&& if success {
                    &&& new.ledger() == old.ledger().insert(player.chain_id@, player@)
                    &&& new.my_player matches Some(p) && p@ == player@
                    &&& new.game == old.game
                    &&& new.is_host == old.is_host
                    &&& new.host_chain_id == old.host_chain_id
                } else {
                    new == old
                }
                &&& r.len() == 0
            },
            Message::BetPlacedConfirm { bet, success, new_balance, .. } => {
                &&& new.ledger() == if success {
                    crate::state::with_reported_balance(old.ledger(), bet.player_chain_id@, new_balance)
                } else {
                    old.ledger()
                }
                &&& own_view(new.my_player) == if success {
                    own_after_report(old.my_player, bet.player_chain_id@, new_balance)
                } else {
                    own_view(old.my_player)
                }
                &&& new.game == old.game
                &&& new.is_host == old.is_host
                &&& new.host_chain_id == old.host_chain_id
                &&& r.len() == 0
            },
            Message::SpinResultBroadcast { result, new_balance, .. } => {
                &&& new.game.last_result == Some(result)
                &&& !new.game.is_spinning
                &&& new.game.current_bets == old.game.current_bets
                &&& new.game.history == old.game.history
                &&& new.game.betting_end_time == old.game.betting_end_time
                &&& new.ledger() == crate::state::with_reported_balance(
                    old.ledger(),
                    ctx.chain_id@,
                    new_balance,
                )
                &&& own_view(new.my_player) == own_after_report(
                    old.my_player,
                    ctx.chain_id@,
                    new_balance,
                )
                &&& new.is_host == old.is_host
                &&& new.host_chain_id == old.host_chain_id
                &&& r.len() == 0
            },
            Message::BalanceUpdate { new_balance, .. } => {
                &&& new.ledger() == crate::state::with_reported_balance(
                    old.ledger(),
                    ctx.chain_id@,
                    new_balance,
                )
                &&& own_view(new.my_player) == own_after_report(
                    old.my_player,
                    ctx.chain_id@,
                    new_balance,
                )
                &&& new.game == old.game
                &&& new.is_host == old.is_host
                &&& new.host_chain_id == old.host_chain_id
                &&& r.len() == 0
            },
            Message::SpinWheelRequest { .. } => {
                if old.is_host {
                    host_operated(old, new, r, ctx, Operation::SpinWheel)
                } else {
                    new == old && r.len() == 0
                }
            },
        }
    }
}

/// A host step that places a bet: a `PlaceBet` operation issued on the host,
/// or a `PlaceBetRequest` it received.
pub open spec fn bet_step(
    old: RouletteState,
    new: RouletteState,
    r: Seq<Effect>,
    ctx: ChainContext,
    origin: Seq<char>,
    op: Operation,
    msg: Message,
) -> bool {
    old.is_host && ((op is PlaceBet && host_operated(old, new, r, ctx, op)) || (
    msg is PlaceBetRequest && messaged(old, new, r, ctx, origin, msg)))
}

/// One bet step keeps, for every registered player, the balance plus what
/// the open bets hold of that player's wagers.
pub proof fn lemma_bet_step_conserves(
    old: RouletteState,
    new: RouletteState,
    r: Seq<Effect>,
    ctx: ChainContext,
    origin: Seq<char>,
    op: Operation,
    msg: Message,
    q: Seq<char>,
)
    requires
        bet_step(old, new, r, ctx, origin, op, msg),
        old.ledger().contains_key(q),
    ensures
        new.is_host,
        new.ledger().contains_key(q),
        new.ledger()[q].balance + wagered(new.game.current_bets@, q) == old.ledger()[q].balance
            + wagered(old.game.current_bets@, q),
{
    let bets = new.game.current_bets@;
    if bets.len() > old.game.current_bets@.len() {
        assert(bets.drop_last() == old.game.current_bets@);
    }
}

/// Over any run of accepted bets on the host from a round with no bets,
/// what has been deducted from a player's balance equals that player's
/// wagers in the round, and the balance never goes below zero.
pub proof fn lemma_bet_steps_deduct_wagers(
    states: Seq<RouletteState>,
    rs: Seq<Seq<Effect>>,
    ctxs: Seq<ChainContext>,
    origins: Seq<Seq<char>>,
    ops: Seq<Operation>,
    msgs: Seq<Message>,
    q: Seq<char>,
)
    requires
        states.len() >= 1,
        rs.len() + 1 >= states.len(),
        ctxs.len() + 1 >= states.len(),
        origins.len() + 1 >= states.len(),
        ops.len() + 1 >= states.len(),
        msgs.len() + 1 >= states.len(),
        states[0].game.current_bets@.len() == 0,
        states[0].ledger().contains_key(q),
        forall|i: int|
            0 <= i < states.len() - 1 ==> bet_step(
                #[trigger] states[i],
                states[i + 1],
                rs[i],
                ctxs[i],
                origins[i],
                ops[i],
                msgs[i],
            ),
    ensures
        states.last().ledger().contains_key(q),
        states[0].ledger()[q].balance - states.last().ledger()[q].balance == wagered(
            states.last().game.current_bets@,
            q,
        ),
        states.last().ledger()[q].balance >= 0,
    decreases states.len(),
{
    if states.len() > 1 {
        let prev = states.drop_last();
        assert forall|i: int| 0 <= i < prev.len() - 1 implies bet_step(
            #[trigger] prev[i],
            prev[i + 1],
            rs[i],
            ctxs[i],
            origins[i],
            ops[i],
            msgs[i],
        ) by {
            assert(prev[i] == states[i] && prev[i + 1] == states[i + 1]);
        }
        lemma_bet_steps_deduct_wagers(prev, rs, ctxs, origins, ops, msgs, q);
        let k = states.len() - 2;
        assert(states[k] == prev.last());
        assert(bet_step(states[k], states[k + 1], rs[k], ctxs[k], origins[k], ops[k], msgs[k]));
        lemma_bet_step_conserves(
            states[k],
            states[k + 1],
            rs[k],
            ctxs[k],
            origins[k],
            ops[k],
            msgs[k],
            q,
        );
    }
}

/// A bet relayed from a player chain and taken by the host leaves the
/// player's cached balance, once the confirmation is applied, equal to the
/// balance the host computed: the old balance less the wager. Relaying
/// itself deducts nothing.
pub proof fn lemma_bet_round_trip(
    p0: RouletteState,
    p1: RouletteState,
    p2: RouletteState,
    h0: RouletteState,
    h1: RouletteState,
    pctx: ChainContext,
    hctx: ChainContext,
    intent: Operation,
    relay: Seq<Effect>,
    reply: Seq<Effect>,
    applied: Seq<Effect>,
)
    requires
        !p0.is_host,
        p0.host_chain_id is Some,
        intent is PlaceBet,
        p1 == p0,
        relayed(relay, p0, pctx, intent),
        h0.is_host,
        relay[0] matches Effect::Send { message, .. } && messaged(
            h0,
            h1,
            reply,
            hctx,
            pctx.chain_id@,
            message,
        ) && (message matches Message::PlaceBetRequest { amount, .. } && takes_bet(
            h0,
            pctx.chain_id@,
            amount,
        )),
        p1.ledger().contains_key(pctx.chain_id@),
        p1.my_player matches Some(me) && me.chain_id@ == pctx.chain_id@,
        reply.last() matches Effect::Send { message, .. } && messaged(
            p1,
            p2,
            applied,
            pctx,
            hctx.chain_id@,
            message,
        ),
    ensures
        p1.ledger() == p0.ledger(),
        p2.ledger()[pctx.chain_id@].balance == h1.ledger()[pctx.chain_id@].balance,
        p2.my_player matches Some(me) && me.balance == h1.ledger()[pctx.chain_id@].balance,
        intent matches Operation::PlaceBet { amount, .. } && h1.ledger()[pctx.chain_id@].balance
            == h0.ledger()[pctx.chain_id@].balance - amount,
{
}

/// Registering the same origin chain twice through requests stores one
/// player, the first, and refuses the second.
pub proof fn lemma_register_twice(
    s0: RouletteState,
    s1: RouletteState,
    s2: RouletteState,
    ctx: ChainContext,
    origin: Seq<char>,
    first: Message,
    second: Message,
    r1: Seq<Effect>,
    r2: Seq<Effect>,
)
    requires
        s0.is_host,
        first is RegisterPlayerRequest,
        second is RegisterPlayerRequest,
        messaged(s0, s1, r1, ctx, origin, first),
        messaged(s1, s2, r2, ctx, origin, second),
        s2.wf(),
    ensures
        s2.ledger().contains_key(origin),
        s2.ledger() == s1.ledger(),
        !s0.ledger().contains_key(origin) ==> (first matches Message::RegisterPlayerRequest {
            name,
            initial_balance,
        } && s2.ledger()[origin] == (PlayerView {
            chain_id: origin,
            name: name@,
            balance: initial_balance,
        })),
        forall|i: int, j: int|
            0 <= i < s2.players@.len() && 0 <= j < s2.players@.len() && #[trigger] s2.players@[i].chain_id@
                == origin && #[trigger] s2.players@[j].chain_id@ == origin ==> i == j,
        r2.last() matches Effect::Send {
            message: Message::PlayerRegisteredConfirm { success, .. },
            ..
        } && !success,
{
}

/// The role is fixed at setup: no operation, relayed or served, and no
/// message changes whether the chain is the host or which host it relays to.
pub proof fn lemma_role_fixed(
    old: RouletteState,
    new: RouletteState,
    r: Seq<Effect>,
    ctx: ChainContext,
    origin: Seq<char>,
    op: Operation,
    msg: Message,
)
    ensures
        (old.is_host && host_operated(old, new, r, ctx, op)) || (!old.is_host && new == old
            && relayed(r, old, ctx, op)) || messaged(old, new, r, ctx, origin, msg) ==> new.is_host
            == old.is_host && new.host_chain_id == old.host_chain_id,
{
}

/// A chain running the game, host or player.
pub struct RouletteContract {
    pub state: RouletteState,
}

impl RouletteContract {
    pub open spec fn wf(&self) -> bool {
        self.state.wf()
    }

    /// Sets a chain up: as a player chain relaying to the given host, or,
    /// without one, as the host with an empty ledger and a fresh round.
    pub fn instantiate(argument: InstantiationArgument) -> (r: RouletteContract)
        ensures
            r.wf(),
            r.state.is_host == argument.host_chain_id.is_none(),
            r.state.host_chain_id == argument.host_chain_id,
            r.state.my_player.is_none(),
            r.state.ledger() == Map::<Seq<char>, PlayerView>::empty(),
            !r.state.game.is_spinning,
            r.state.game.current_bets@.len() == 0,
            r.state.game.last_result.is_none(),
            r.state.game.history@.len() == 0,
            r.state.game.betting_end_time.is_none(),
    {
        match argument.host_chain_id {
            Some(host) => RouletteContract { state: RouletteState::new_player(host) },
            None => RouletteContract { state: RouletteState::new_host() },
        }
    }

    /// Runs an operation issued on this chain. A player chain only relays
    /// it to the host; the host validates and applies it.
    pub fn execute_operation(&mut self, ctx: &ChainContext, operation: Operation) -> (r: Vec<
        Effect,
    >)
        requires
            old(self).wf(),
        ensures
            final(self).wf(),
            !old(self).state.is_host ==> final(self).state == old(self).state && relayed(
                r@,
                old(self).state,
                *ctx,
                operation,
            ),
            old(self).state.is_host ==> host_operated(
                old(self).state,
                final(self).state,
                r@,
                *ctx,
                operation,
            ),
    {
        if !self.state.is_host {
            return self.relay_operation(ctx, operation);
        }
        match operation {
            Operation::RegisterPlayer { player_id, name, initial_balance } => {
                let player = Player { chain_id: player_id, name, balance: initial_balance };
                let announced = player.copied();
                let mut effects: Vec<Effect> = Vec::new();
                if self.state.register_player(player) {
                    let timestamp = decimal_string(ctx.now_micros);
                    effects.push(
                        Effect::Emit {
                            event: RouletteEvent::PlayerRegistered { player: announced, timestamp },
                        },
                    );
                }
                effects
            },
            Operation::PlaceBet { player_id, bet_type, numbers, amount } => {
                let player_name = match self.state.find_player(&player_id) {
                    Some(i) => self.state.players[i].name.clone(),
                    None => return Vec::new(),
                };
                let bet = Bet { player_chain_id: player_id, player_name, bet_type, numbers, amount };
                let announced = bet.copied();
                let ghost pushed = bet;
                let mut effects: Vec<Effect> = Vec::new();
                match self.state.accept_bet(bet) {
                    Ok(_) => {
                        assert(self.state.game.current_bets@.drop_last() =~= old(
                            self,
                        ).state.game.current_bets@);
                        assert(self.state.game.current_bets@.last() == pushed);
                        let timestamp = decimal_string(ctx.now_micros);
                        effects.push(
                            Effect::Emit {
                                event: RouletteEvent::BetPlaced { bet: announced, timestamp },
                            },
                        );
                    },
                    Err(_) => {},
                }
                effects
            },
            Operation::StartRound => {
                self.state.start_round(ctx.now_micros);
                Vec::new()
            },
            Operation::SpinWheel => self.spin_wheel(ctx),
            Operation::SettleBets { result } => {
                if result as u64 >= POCKETS {
                    return Vec::new();
                }
                self.settle_bets_internal(ctx, result)
            },
        }
    }

    /// Handles a message that arrived from chain `origin`.
    pub fn execute_message(&mut self, ctx: &ChainContext, origin: String, message: Message) -> (r:
        Vec<Effect>)
        requires
            old(self).wf(),
        ensures
            final(self).wf(),
            messaged(old(self).state, final(self).state, r@, *ctx, origin@, message),
    {
        let mut effects: Vec<Effect> = Vec::new();
        // The host's ledger is its own: reports meant for a player chain's
        // cache are not applied there.
        let reports = match &message {
            Message::PlayerRegisteredConfirm { .. } | Message::BetPlacedConfirm { .. }
            | Message::SpinResultBroadcast { .. } | Message::BalanceUpdate { .. } => true,
            _ => false,
        };
        if self.state.is_host && reports {
            return effects;
        }
        match message {
            Message::RegisterPlayerRequest { name, initial_balance } => {
                if !self.state.is_host {
                    return effects;
                }
                let player = Player { chain_id: origin.clone(), name, balance: initial_balance };
                if self.state.find_player(&origin).is_some() {
                    let refused = Player {
                        chain_id: origin.clone(),
                        name: player.name,
                        balance: 0,
                    };
                    effects.push(
                        Effect::Send {
                            to: origin,
                            message: Message::PlayerRegisteredConfirm {
                                player: refused,
                                success: false,
                                error_message: Some("Already registered".to_string()),
                            },
                        },
                    );
                    return effects;
                }
                let announced = player.copied();
                let confirmed = player.copied();
                self.state.register_player(player);
                let timestamp = decimal_string(ctx.now_micros);
                effects.push(
                    Effect::Emit {
                        event: RouletteEvent::PlayerRegistered { player: announced, timestamp },
                    },
                );
                effects.push(
                    Effect::Send {
                        to: origin,
                        message: Message::PlayerRegisteredConfirm {
                            player: confirmed,
                            success: true,
                            error_message: None,
                        },
                    },
                );
                effects
            },
            Message::PlaceBetRequest { bet_type, numbers, amount, player_name } => {
                if !self.state.is_host {
                    return effects;
                }
                let bet = Bet {
                    player_chain_id: origin.clone(),
                    player_name,
                    bet_type,
                    numbers,
                    amount,
                };
                let announced = bet.copied();
                let reply = bet.copied();
                let ghost pushed = bet;
                match self.state.accept_bet(bet) {
                    Ok(new_balance) => {
                        assert(self.state.game.current_bets@.drop_last() =~= old(
                            self,
                        ).state.game.current_bets@);
                        assert(self.state.game.current_bets@.last() == pushed);
                        let timestamp = decimal_string(ctx.now_micros);
                        effects.push(
                            Effect::Emit {
                                event: RouletteEvent::BetPlaced { bet: announced, timestamp },
                            },
                        );
                        effects.push(
                            Effect::Send {
                                to: origin,
                                message: Message::BetPlacedConfirm {
                                    bet: reply,
                                    success: true,
                                    new_balance,
                                    error_message: None,
                                },
                            },
                        );
                    },
                    Err(rejection) => {
                        let balance = match self.state.find_player(&origin) {
                            Some(i) => self.state.players[i].balance,
                            None => 0,
                        };
                        let reason = match rejection {
                            BetRejection::NotRegistered => "Not registered".to_string(),
                            BetRejection::InsufficientBalance => "Insufficient balance".to_string(),
                            BetRejection::WheelSpinning => "Wheel spinning".to_string(),
                        };
                        effects.push(
                            Effect::Send {
                                to: origin,
                                message: Message::BetPlacedConfirm {
                                    bet: reply,
                                    success: false,
                                    new_balance: balance,
                                    error_message: Some(reason),
                                },
                            },
                        );
                    },
                }
                effects
            },
            Message::PlayerRegisteredConfirm { player, success, .. } => {
                if success {
                    self.state.cache_player(player);
                }
                effects
            },
            Message::BetPlacedConfirm { bet, success, new_balance, .. } => {
                if success {
                    self.state.cache_balance(&bet.player_chain_id, new_balance);
                }
                effects
            },
            Message::SpinResultBroadcast { result, new_balance, .. } => {
                self.state.game.last_result = Some(result);
                self.state.game.is_spinning = false;
                self.state.cache_balance(&ctx.chain_id, new_balance);
                effects
            },
            Message::BalanceUpdate { new_balance, .. } => {
                self.state.cache_balance(&ctx.chain_id, new_balance);
                effects
            },
            Message::SpinWheelRequest { .. } => {
                if !self.state.is_host {
                    return effects;
                }
                self.spin_wheel(ctx)
            },
        }
    }

    /// Translates an operation on a player chain into a request to the host.
    fn relay_operation(&self, ctx: &ChainContext, operation: Operation) -> (r: Vec<Effect>)
        ensures
            relayed(r@, self.state, *ctx, operation),
    {
        let mut effects: Vec<Effect> = Vec::new();
        let host = match &self.state.host_chain_id {
            Some(h) => h,
            None => return effects,
        };
        match operation {
            Operation::RegisterPlayer { name, initial_balance, .. } => {
                effects.push(
                    Effect::Send {
                        to: host.clone(),
                        message: Message::RegisterPlayerRequest { name, initial_balance },
                    },
                );
            },
            Operation::PlaceBet { bet_type, numbers, amount, .. } => {
                let player_name = match &self.state.my_player {
                    Some(p) => p.name.clone(),
                    None => String::new(),
                };
                effects.push(
                    Effect::Send {
                        to: host.clone(),
                        message: Message::PlaceBetRequest { bet_type, numbers, amount, player_name },
                    },
                );
            },
            Operation::SpinWheel => {
                effects.push(
                    Effect::Send {
                        to: host.clone(),
                        message: Message::SpinWheelRequest { player_chain_id: ctx.chain_id.clone() },
                    },
                );
            },
            _ => {},
        }
        effects
    }

    /// Settles the open bets on `result`, then announces the outcome.
    fn settle_bets_internal(&mut self, ctx: &ChainContext, result: u8) -> (r: Vec<Effect>)
        requires
            old(self).wf(),
        ensures
            final(self).wf(),
            settled(old(self).state, final(self).state, result, decimal(ctx.now_micros as nat)),
            final(self).state.game.last_result matches Some(sr) && announces(
                r@,
                old(self).state.ledger(),
                old(self).state.game.current_bets@,
                result,
                sr@,
                decimal(ctx.now_micros as nat),
            ),
    {
        let timestamp = decimal_string(ctx.now_micros);
        let notices = self.state.settle_bets(result, timestamp.clone());
        let ghost chains = distinct_chains(old(self).state.game.current_bets@);
        let mut effects: Vec<Effect> = Vec::new();
        match &self.state.game.last_result {
            Some(sr) => {
                let mut i: usize = 0;
                while i < notices.len()
                    invariant
                        0 <= i <= notices@.len(),
                        effects@.len() == i,
                        notices@.len() == chains.len(),
                        forall|k: int|
                            0 <= k < notices@.len() ==> #[trigger] notices@[k].chain_id@
                                == chains[k],
                        forall|k: int|
                            0 <= k < i ==> (#[trigger] effects@[k] matches Effect::Send {
                                to,
                                message: Message::SpinResultBroadcast {
                                    result,
                                    player_payout,
                                    new_balance,
                                    won,
                                },
                            } && to@ == notices@[k].chain_id@ && result@ == sr@ && player_payout
                                == notices@[k].payout && won == notices@[k].won && new_balance
                                == notices@[k].new_balance),
                    decreases notices@.len() - i,
                {
                    let n = &notices[i];
                    effects.push(
                        Effect::Send {
                            to: n.chain_id.clone(),
                            message: Message::SpinResultBroadcast {
                                result: sr.copied(),
                                player_payout: n.payout,
                                new_balance: n.new_balance,
                                won: n.won,
                            },
                        },
                    );
                    i = i + 1;
                }
                effects.push(
                    Effect::Emit {
                        event: RouletteEvent::WheelSpun {
                            result: sr.copied(),
                            timestamp: timestamp.clone(),
                        },
                    },
                );
                effects.push(Effect::Emit { event: RouletteEvent::BetsSettled { timestamp } });
            },
            None => {},
        }
        effects
    }

    /// Starts a spin if the wheel is idle and there are bets: the flag is
    /// set before the pocket is drawn, then the round is settled on it.
    fn spin_wheel(&mut self, ctx: &ChainContext) -> (r: Vec<Effect>)
        requires
            old(self).wf(),
        ensures
            final(self).wf(),
            ({
                let s = old(self).state;
                if !s.game.is_spinning && s.game.current_bets@.len() > 0 {
                    let n = drawn_pocket(
                        s.game.current_bets@,
                        ctx.chain_id@,
                        ctx.block_height,
                        ctx.now_micros,
                    );
                    &&& settled(s, final(self).state, n, decimal(ctx.now_micros as nat))
                    &&& final(self).state.game.last_result matches Some(sr) && announces(
                        r@,
                        s.ledger(),
                        s.game.current_bets@,
                        n,
                        sr@,
                        decimal(ctx.now_micros as nat),
                    )
                } else {
                    final(self).state == s && r@.len() == 0
                }
            }),
    {
        if !self.state.begin_spin() {
            return Vec::new();
        }
        let n = draw_pocket(
            &self.state.game.current_bets,
            &ctx.chain_id,
            ctx.block_height,
            ctx.now_micros,
        );
        self.settle_bets_internal(ctx, n)
    }
}

} // verus!
