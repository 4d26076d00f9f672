//! Adversarial driver: search the action space for a break of the invariant
//! contract against the composed engine, and shrink any break to a shorter
//! sequence that still breaks the same way. A clean search is evidence, not a
//! proof: it falsifies, it does not verify.
//!
//! The engine itself is reached through two closures: one builds a fresh engine,
//! the other applies one `EngineOp` and returns the invariant snapshot after it.
//! Everything else (the reproducible action generator, the clock, the replay, the
//! shrinking and the search) is decided here.

use vstd::prelude::*;
use vstd::arithmetic::div_mod::{lemma_add_mod_noop, lemma_mod_add_multiples_vanish, lemma_small_mod};
use crate::engine::{CalendarState, VenueObs};
use crate::invariants::{check, contract_result, InvariantSnapshot, Violation};

verus! {

/// The calendar session an adversarial action crosses into.
#[derive(Clone, Copy, PartialEq, Eq, Structural, Debug)]
pub enum CalendarFlag {
    Open,
    Closed,
    Halted,
}

/// One adversarial step.
#[derive(Clone, Copy, PartialEq, Eq, Structural, Debug)]
pub enum Action {
    /// All venues report `price` with fresh depth; the session is open.
    OracleMove { price: u64 },
    /// Time passes (at least one slot) with no fresh observations.
    AdvanceSlots { n: u64 },
    /// One slot passes with no fresh observations in the session `cal`.
    Cross { cal: CalendarFlag },
    /// A risk-increasing trade of `size` between `a` and `b`.
    Open { a: u16, b: u16, size: i128 },
    /// A liquidation of `idx`.
    Liquidate { idx: u16 },
}

/// The result of a search.
#[derive(Clone, Debug)]
pub enum Outcome {
    /// No trial broke the contract.
    NoBreak { trials: usize },
    /// A trial broke the contract; `seq` is the shrunk sequence that still breaks
    /// it with `violation`.
    Found { seq: Vec<Action>, violation: Violation },
}

/// The calendar state a flag stands for.
pub open spec fn flag_state(f: CalendarFlag) -> CalendarState {
    match f {
        CalendarFlag::Open => CalendarState::Open,
        CalendarFlag::Closed => CalendarState::Closed,
        CalendarFlag::Halted => CalendarState::Halted,
    }
}

impl CalendarFlag {
    /// The calendar state this flag stands for.
    pub fn to_state(self) -> (s: CalendarState)
        ensures
            s == flag_state(self),
            self == CalendarFlag::Open ==> s == CalendarState::Open,
            self == CalendarFlag::Closed ==> s == CalendarState::Closed,
            self == CalendarFlag::Halted ==> s == CalendarState::Halted,
    {
        match self {
            CalendarFlag::Open => CalendarState::Open,
            CalendarFlag::Closed => CalendarState::Closed,
            CalendarFlag::Halted => CalendarState::Halted,
        }
    }
}

/// 2^64, the modulus of the generator.
pub open spec fn modulus() -> int {
    0x1_0000_0000_0000_0000
}

/// Multiplier of the generator.
pub const LCG_MUL: u64 = 6364136223846793005;

/// Increment of the generator.
pub const LCG_INC: u64 = 1442695040888963407;

/// One step of the linear congruential generator: `x * LCG_MUL + LCG_INC` mod 2^64.
pub open spec fn lcg_next(x: u64) -> u64 {
    ((x * LCG_MUL + LCG_INC) % modulus()) as u64
}

/// A deterministic linear congruential generator, so a search is reproducible
/// from its seed.
pub struct Lcg(pub u64);

proof fn lemma_wrapping_add(a: u64, b: u64)
    ensures
        vstd::wrapping::u64_specs::wrapping_add(a, b) == ((a + b) % modulus()) as u64,
{
    let m = modulus();
    if a + b > u64::MAX {
        lemma_mod_add_multiples_vanish(a + b - m, m);
        lemma_small_mod((a + b - m) as nat, m as nat);
    } else {
        lemma_small_mod((a + b) as nat, m as nat);
    }
}

proof fn lemma_lcg_step(x: u64)
    ensures
        vstd::wrapping::u64_specs::wrapping_add(
            vstd::wrapping::u64_specs::wrapping_mul(x, LCG_MUL),
            LCG_INC,
        ) == lcg_next(x),
{
    let m = modulus();
    let p: int = x * LCG_MUL;
    let w = vstd::wrapping::u64_specs::wrapping_mul(x, LCG_MUL);
    assert(w as int == p % m);
    lemma_wrapping_add(w, LCG_INC);
    lemma_small_mod(LCG_INC as nat, m as nat);
    lemma_add_mod_noop(p, LCG_INC as int, m);
}

impl Lcg {
    /// Advance the generator and return its new state.
    pub fn next_u64(&mut self) -> (r: u64)
        ensures
            r == lcg_next(old(self).0),
            final(self).0 == r,
            r as int == (old(self).0 * 6364136223846793005int + 1442695040888963407int)
                % 0x1_0000_0000_0000_0000int,
    {
        proof {
            lemma_lcg_step(self.0);
        }
        self.0 = self.0.wrapping_mul(LCG_MUL).wrapping_add(LCG_INC);
        self.0
    }
}

/// The action drawn from generator state `s`, and the generator state after it.
/// One draw picks the kind; all kinds but a liquidation draw once more for their
/// parameter.
pub open spec fn random_action_spec(s: u64) -> (Action, u64) {
    let x1 = lcg_next(s);
    let x2 = lcg_next(x1);
    if x1 % 5 == 0 {
        (Action::OracleMove { price: (40_000 + x2 % 20_000) as u64 }, x2)
    } else if x1 % 5 == 1 {
        (Action::AdvanceSlots { n: (1 + x2 % 10) as u64 }, x2)
    } else if x1 % 5 == 2 {
        let cal = if x2 % 3 == 0 {
            CalendarFlag::Open
        } else if x2 % 3 == 1 {
            CalendarFlag::Closed
        } else {
            CalendarFlag::Halted
        };
        (Action::Cross { cal }, x2)
    } else if x1 % 5 == 3 {
        (Action::Open { a: 1, b: 0, size: (100 + x2 % 5000) as i128 }, x2)
    } else {
        (Action::Liquidate { idx: 1 }, x1)
    }
}

/// Draw one adversarial action: an oracle move to a price in [40000, 60000), an
/// advance of 1 to 10 slots, a session crossing, an open of size [100, 5100)
/// from account 1 against account 0, or a liquidation of account 1.
pub fn random_action(rng: &mut Lcg) -> (act: Action)
    ensures
        (act, final(rng).0) == random_action_spec(old(rng).0),
{
    match rng.next_u64() % 5 {
        0 => Action::OracleMove { price: 40_000 + (rng.next_u64() % 20_000) },
        1 => Action::AdvanceSlots { n: 1 + rng.next_u64() % 10 },
        2 => Action::Cross {
            cal: match rng.next_u64() % 3 {
                0 => CalendarFlag::Open,
                1 => CalendarFlag::Closed,
                _ => CalendarFlag::Halted,
            },
        },
        3 => Action::Open { a: 1, b: 0, size: 100 + (rng.next_u64() % 5000) as i128 },
        _ => Action::Liquidate { idx: 1 },
    }
}

/// Every drawn action stays inside the adversary's envelope: prices in
/// [40000, 60000), advances of 1 to 10 slots, opens by account 1 against
/// account 0 of size [100, 5100), liquidations of account 1.
pub proof fn lemma_random_action_envelope(s: u64)
    ensures
        match random_action_spec(s).0 {
            Action::OracleMove { price } => 40_000 <= price < 60_000,
            Action::AdvanceSlots { n } => 1 <= n <= 10,
            Action::Cross { .. } => true,
            Action::Open { a, b, size } => a == 1 && b == 0 && 100 <= size < 5_100,
            Action::Liquidate { idx } => idx == 1,
        },
{
}

/// One draw of the generator maps `x` to `x * LCG_MUL + LCG_INC` mod 2^64.
pub proof fn lemma_lcg_formula(x: u64)
    ensures
        lcg_next(x) as int == (x * 6364136223846793005int + 1442695040888963407int) % 0x1_0000_0000_0000_0000int,
{
}

/// The drawn action follows the generator's draws: the first draw `x1` picks the
/// kind by `x1 mod 5`, the second draw `x2` its parameter: an oracle move to
/// `40000 + x2 mod 20000`, an advance of `1 + x2 mod 10` slots, a crossing into
/// the session `x2 mod 3` (open, closed, halted), an open by account 1 against
/// account 0 of size `100 + x2 mod 5000`; a liquidation of account 1 draws once.
pub proof fn lemma_random_action_draws(s: u64)
    ensures
        ({
            let x1 = lcg_next(s);
            let x2 = lcg_next(x1);
            let (act, next) = random_action_spec(s);
            &&& x1 % 5 == 0 ==> act == Action::OracleMove { price: (40_000 + x2 % 20_000) as u64 } && next == x2
            &&& x1 % 5 == 1 ==> act == Action::AdvanceSlots { n: (1 + x2 % 10) as u64 } && next == x2
            &&& x1 % 5 == 2 && x2 % 3 == 0 ==> act == Action::Cross { cal: CalendarFlag::Open } && next == x2
            &&& x1 % 5 == 2 && x2 % 3 == 1 ==> act == Action::Cross { cal: CalendarFlag::Closed } && next == x2
            &&& x1 % 5 == 2 && x2 % 3 == 2 ==> act == Action::Cross { cal: CalendarFlag::Halted } && next == x2
            &&& x1 % 5 == 3 ==> act == Action::Open { a: 1, b: 0, size: (100 + x2 % 5_000) as i128 } && next == x2
            &&& x1 % 5 == 4 ==> act == Action::Liquidate { idx: 1 } && next == x1
        }),
{
}

/// The generator state after `n` draws of actions from `s`.
pub open spec fn rng_after(s: u64, n: nat) -> u64
    decreases n,
{
    if n == 0 {
        s
    } else {
        random_action_spec(rng_after(s, (n - 1) as nat)).1
    }
}

/// The first `n` actions drawn from generator state `s`.
pub open spec fn actions_from(s: u64, n: nat) -> Seq<Action>
    decreases n,
{
    if n == 0 {
        Seq::empty()
    } else {
        actions_from(s, (n - 1) as nat).push(random_action_spec(rng_after(s, (n - 1) as nat)).0)
    }
}

/// The generator seed of trial `t`: `seed + t + 1` mod 2^64.
pub open spec fn trial_seed(seed: u64, t: int) -> u64 {
    ((seed + t + 1) % modulus()) as u64
}

/// The action sequence of trial `t`.
#[verifier::opaque]
pub open spec fn trial_seq(seed: u64, t: int, steps: nat) -> Seq<Action> {
    actions_from(trial_seed(seed, t), steps)
}

proof fn lemma_actions_len(s: u64, n: nat)
    ensures
        actions_from(s, n).len() == n,
    decreases n,
{
    if n > 0 {
        lemma_actions_len(s, (n - 1) as nat);
    }
}

/// The action sequence of trial `t` of a search from `seed`.
pub fn trial_actions(seed: u64, t: usize, steps: usize) -> (seq: Vec<Action>)
    ensures
        seq@ == trial_seq(seed, t as int, steps as nat),
        seq.len() == steps,
{
    proof {
        reveal(trial_seq);
        lemma_actions_len(trial_seed(seed, t as int), steps as nat);
        lemma_wrapping_add(seed, t as u64);
        lemma_wrapping_add(((seed + t) % modulus()) as u64, 1);
        lemma_add_mod_noop(seed + t, 1, modulus());
        lemma_small_mod(1, modulus() as nat);
    }
    let mut rng = Lcg(seed.wrapping_add(t as u64).wrapping_add(1));
    let mut seq: Vec<Action> = Vec::new();
    let mut k: usize = 0;
    while k < steps
        invariant
            k <= steps,
            rng.0 == rng_after(trial_seed(seed, t as int), k as nat),
            seq@ == actions_from(trial_seed(seed, t as int), k as nat),
        decreases steps - k,
    {
        let act = random_action(&mut rng);
        seq.push(act);
        k = k + 1;
    }
    seq
}

/// One operation on the composed engine.
#[derive(Clone, Copy, PartialEq, Eq, Debug)]
pub enum EngineOp {
    /// A tick in session `cal` at `now_slot`/`now_ts`; with `Some(p)` every venue
    /// reports `p`, with `None` there are no fresh observations.
    Tick { fresh_price: Option<u64>, cal: CalendarState, now_slot: u64, now_ts: u64 },
    /// A risk-increasing open.
    Open { a: u16, b: u16, size_q: i128, now_slot: u64 },
    /// A liquidation.
    Liquidate { idx: u16, now_slot: u64 },
}

/// Number of venues that report on an oracle move.
pub const MOVE_VENUES: usize = 3;

/// Depth every venue reports on an oracle move.
pub const MOVE_DEPTH: u64 = 100;

/// The venue observations of a tick: none, or every one of the first
/// `MOVE_VENUES` venues reporting the price with `MOVE_DEPTH`.
pub open spec fn observations_for(fresh_price: Option<u64>) -> Seq<VenueObs> {
    match fresh_price {
        None => Seq::empty(),
        Some(p) => Seq::new(
            MOVE_VENUES as nat,
            |k: int| VenueObs { venue: k as usize, price: p, depth: MOVE_DEPTH },
        ),
    }
}

/// The venue observations that a tick of `EngineOp::Tick` hands to the feed.
pub fn venue_observations(fresh_price: Option<u64>) -> (obs: Vec<VenueObs>)
    ensures
        obs@ == observations_for(fresh_price),
        fresh_price is None ==> obs.len() == 0,
        fresh_price matches Some(p) ==> obs.len() == 3 && forall|k: int|
            0 <= k < 3 ==> (#[trigger] obs@[k]).venue == k && obs@[k].price == p && obs@[k].depth == 100,
{
    let mut obs: Vec<VenueObs> = Vec::new();
    match fresh_price {
        None => {},
        Some(price) => {
            let mut k: usize = 0;
            while k < MOVE_VENUES
                invariant
                    k <= MOVE_VENUES,
                    obs@ =~= Seq::new(
                        k as nat,
                        |j: int| VenueObs { venue: j as usize, price, depth: MOVE_DEPTH },
                    ),
                decreases MOVE_VENUES - k,
            {
                obs.push(VenueObs { venue: k, price, depth: MOVE_DEPTH });
                k = k + 1;
            }
        },
    }
    obs
}

/// How far an action moves the clock: one slot for an oracle move or a session
/// crossing, `n` slots (at least one) for an advance, none for an order.
pub open spec fn advance(act: Action) -> nat {
    match act {
        Action::OracleMove { .. } => 1,
        Action::AdvanceSlots { n } => if n == 0 { 1 } else { n as nat },
        Action::Cross { .. } => 1,
        Action::Open { .. } => 0,
        Action::Liquidate { .. } => 0,
    }
}

/// The operation an action becomes on a clock `(slot, ts)`, and the clock after it.
/// Ticks happen at the advanced clock; orders at the current slot.
pub open spec fn plan_spec(act: Action, clock: (u64, u64)) -> (EngineOp, (u64, u64)) {
    let next = ((clock.0 + advance(act)) as u64, (clock.1 + advance(act)) as u64);
    match act {
        Action::OracleMove { price } => (
            EngineOp::Tick { fresh_price: Some(price), cal: CalendarState::Open, now_slot: next.0, now_ts: next.1 },
            next,
        ),
        Action::AdvanceSlots { .. } => (
            EngineOp::Tick { fresh_price: None, cal: CalendarState::Open, now_slot: next.0, now_ts: next.1 },
            next,
        ),
        Action::Cross { cal } => (
            EngineOp::Tick { fresh_price: None, cal: flag_state(cal), now_slot: next.0, now_ts: next.1 },
            next,
        ),
        Action::Open { a, b, size } => (EngineOp::Open { a, b, size_q: size, now_slot: clock.0 }, clock),
        Action::Liquidate { idx } => (EngineOp::Liquidate { idx, now_slot: clock.0 }, clock),
    }
}

/// The operation an action becomes on the clock `(slot, ts)`, and the advanced clock.
pub fn plan_action(act: Action, clock: (u64, u64)) -> (r: (EngineOp, (u64, u64)))
    requires
        clock.0 + advance(act) <= u64::MAX,
        clock.1 + advance(act) <= u64::MAX,
    ensures
        r == plan_spec(act, clock),
        act matches Action::OracleMove { price } ==> r == (
            EngineOp::Tick {
                fresh_price: Some(price),
                cal: CalendarState::Open,
                now_slot: (clock.0 + 1) as u64,
                now_ts: (clock.1 + 1) as u64,
            },
            ((clock.0 + 1) as u64, (clock.1 + 1) as u64),
        ),
        act matches Action::AdvanceSlots { n } ==> {
            let step: int = if n == 0 { 1 } else { n as int };
            r == (
                EngineOp::Tick {
                    fresh_price: None,
                    cal: CalendarState::Open,
                    now_slot: (clock.0 + step) as u64,
                    now_ts: (clock.1 + step) as u64,
                },
                ((clock.0 + step) as u64, (clock.1 + step) as u64),
            )
        },
        act matches Action::Cross { cal } ==> {
            &&& r.1 == ((clock.0 + 1) as u64, (clock.1 + 1) as u64)
            &&& r.0 matches EngineOp::Tick { fresh_price, cal: c, now_slot, now_ts } && fresh_price is None
                && now_slot == clock.0 + 1 && now_ts == clock.1 + 1
                && (cal == CalendarFlag::Open ==> c == CalendarState::Open)
                && (cal == CalendarFlag::Closed ==> c == CalendarState::Closed)
                && (cal == CalendarFlag::Halted ==> c == CalendarState::Halted)
        },
        act matches Action::Open { a, b, size } ==> r == (
            EngineOp::Open { a, b, size_q: size, now_slot: clock.0 },
            clock,
        ),
        act matches Action::Liquidate { idx } ==> r == (EngineOp::Liquidate { idx, now_slot: clock.0 }, clock),
{
    match act {
        Action::OracleMove { price } => {
            let next = (clock.0 + 1, clock.1 + 1);
            (EngineOp::Tick { fresh_price: Some(price), cal: CalendarState::Open, now_slot: next.0, now_ts: next.1 }, next)
        },
        Action::AdvanceSlots { n } => {
            let step = n.max(1);
            let next = (clock.0 + step, clock.1 + step);
            (EngineOp::Tick { fresh_price: None, cal: CalendarState::Open, now_slot: next.0, now_ts: next.1 }, next)
        },
        Action::Cross { cal } => {
            let next = (clock.0 + 1, clock.1 + 1);
            (EngineOp::Tick { fresh_price: None, cal: cal.to_state(), now_slot: next.0, now_ts: next.1 }, next)
        },
        Action::Open { a, b, size } => (EngineOp::Open { a, b, size_q: size, now_slot: clock.0 }, clock),
        Action::Liquidate { idx } => (EngineOp::Liquidate { idx, now_slot: clock.0 }, clock),
    }
}

/// Orders leave the clock where it is; ticks move the slot and the timestamp
/// forward together by the action's advance, at least one.
pub proof fn lemma_plan_moves_clock(act: Action, clock: (u64, u64))
    requires
        clock.0 + advance(act) <= u64::MAX,
        clock.1 + advance(act) <= u64::MAX,
    ensures
        plan_spec(act, clock).0 is Tick ==> {
            &&& advance(act) >= 1
            &&& plan_spec(act, clock).1.0 == clock.0 + advance(act)
            &&& plan_spec(act, clock).1.1 == clock.1 + advance(act)
        },
        !(plan_spec(act, clock).0 is Tick) ==> plan_spec(act, clock).1 == clock,
{
}

/// Total clock movement of a sequence of actions.
pub open spec fn total_advance(s: Seq<Action>) -> nat
    decreases s.len(),
{
    if s.len() == 0 {
        0
    } else {
        total_advance(s.drop_last()) + advance(s.last())
    }
}

/// The operations a replay of `seq` from the clock `(0, 0)` performs, in order.
pub open spec fn planned_ops(seq: Seq<Action>) -> Seq<EngineOp> {
    Seq::new(
        seq.len(),
        |k: int|
            plan_spec(
                seq[k],
                (total_advance(seq.take(k)) as u64, total_advance(seq.take(k)) as u64),
            ).0,
    )
}

proof fn lemma_total_step(s: Seq<Action>, i: int)
    requires
        0 <= i < s.len(),
    ensures
        total_advance(s.take(i + 1)) == total_advance(s.take(i)) + advance(s[i]),
{
    assert(s.take(i + 1).drop_last() =~= s.take(i));
}

proof fn lemma_total_prefix(s: Seq<Action>, i: int)
    requires
        0 <= i <= s.len(),
    ensures
        total_advance(s.take(i)) <= total_advance(s),
    decreases s.len() - i,
{
    if i == s.len() {
        assert(s.take(i) =~= s);
    } else {
        lemma_total_step(s, i);
        lemma_total_prefix(s, i + 1);
    }
}

/// The first `n` snapshots all satisfy the contract.
pub open spec fn snapshots_ok(snaps: Seq<InvariantSnapshot>, n: int) -> bool {
    forall|j: int| 0 <= j < n ==> (#[trigger] contract_result(snaps[j])) is Ok
}

/// A run of the engine closures: a fresh engine `engs[0]`, then for each step `j`
/// the engine `engs[j + 1]` and snapshot `snaps[j]` that applying the `j`-th
/// planned operation of `seq` to `engs[j]` returned.
pub open spec fn replay_trace<E, F: Fn() -> E, R: Fn(E, EngineOp) -> (E, InvariantSnapshot)>(
    fresh: F,
    run: R,
    seq: Seq<Action>,
    n: int,
    engs: Seq<E>,
    snaps: Seq<InvariantSnapshot>,
) -> bool {
    &&& 0 <= n <= seq.len()
    &&& engs.len() == n + 1
    &&& snaps.len() == n
    &&& call_ensures(fresh, (), engs[0])
    &&& forall|j: int|
        0 <= j < n ==> call_ensures(run, (engs[j], #[trigger] planned_ops(seq)[j]), (engs[j + 1], snaps[j]))
}

/// A run of `n` steps of `seq` that ends as `r` says: with `None`, every step
/// of `seq` ran and every snapshot satisfied the contract; with `Some(v)`, the
/// last step was the first whose snapshot broke it, with `v`.
pub open spec fn replay_witness<E, F: Fn() -> E, R: Fn(E, EngineOp) -> (E, InvariantSnapshot)>(
    fresh: F,
    run: R,
    seq: Seq<Action>,
    r: Option<Violation>,
    n: int,
    engs: Seq<E>,
    snaps: Seq<InvariantSnapshot>,
) -> bool {
    &&& replay_trace(fresh, run, seq, n, engs, snaps)
    &&& match r {
        None => n == seq.len() && snapshots_ok(snaps, n),
        Some(v) => n >= 1 && snapshots_ok(snaps, n - 1) && contract_result(snaps[n - 1]) == Err::<(), Violation>(v),
    }
}

/// Some run of the engine closures over `seq` ends as `r` says.
#[verifier::opaque]
pub open spec fn replay_post<E, F: Fn() -> E, R: Fn(E, EngineOp) -> (E, InvariantSnapshot)>(
    fresh: F,
    run: R,
    seq: Seq<Action>,
    r: Option<Violation>,
) -> bool {
    exists|n: int, engs: Seq<E>, snaps: Seq<InvariantSnapshot>|
        #[trigger] replay_witness(fresh, run, seq, r, n, engs, snaps)
}

/// The closures can be called on any arguments.
pub open spec fn closures_callable<E, F: Fn() -> E, R: Fn(E, EngineOp) -> (E, InvariantSnapshot)>(
    fresh: F,
    run: R,
) -> bool {
    &&& call_requires(fresh, ())
    &&& forall|e: E, op: EngineOp| call_requires(run, (e, op))
}

/// Replay `seq` on a fresh engine from the clock `(0, 0)`, checking the contract
/// after every action; return the first violation, or `None`.
pub fn replay_breaks<E, F: Fn() -> E, R: Fn(E, EngineOp) -> (E, InvariantSnapshot)>(
    fresh: &F,
    run: &R,
    seq: &Vec<Action>,
) -> (r: Option<Violation>)
    requires
        closures_callable(*fresh, *run),
        total_advance(seq@) <= u64::MAX,
    ensures
        replay_post(*fresh, *run, seq@, r),
{
    let mut eng = fresh();
    let ghost mut engs: Seq<E> = seq![eng];
    let ghost mut snaps: Seq<InvariantSnapshot> = Seq::empty();
    let mut clock: (u64, u64) = (0, 0);
    let mut i: usize = 0;
    while i < seq.len()
        invariant
            closures_callable(*fresh, *run),
            total_advance(seq@) <= u64::MAX,
            i <= seq.len(),
            replay_trace(*fresh, *run, seq@, i as int, engs, snaps),
            engs[i as int] == eng,
            snapshots_ok(snaps, i as int),
            clock.0 == total_advance(seq@.take(i as int)),
            clock.1 == clock.0,
        decreases seq.len() - i,
    {
        proof {
            reveal(replay_post);
            lemma_total_step(seq@, i as int);
            lemma_total_prefix(seq@, i as int + 1);
        }
        let (op, next) = plan_action(seq[i], clock);
        assert(op == planned_ops(seq@)[i as int]);
        clock = next;
        let (e2, snap) = run(eng, op);
        proof {
            engs = engs.push(e2);
            snaps = snaps.push(snap);
        }
        eng = e2;
        i = i + 1;
        match check(&snap) {
            Err(v) => {
                assert(replay_witness(*fresh, *run, seq@, Some(v), i as int, engs, snaps));
                return Some(v);
            },
            Ok(()) => {},
        }
    }
    assert(replay_witness(*fresh, *run, seq@, None, i as int, engs, snaps));
    proof {
        reveal(replay_post);
    }
    None
}

/// `idx` embeds `a` in `b`: strictly increasing positions of `b` holding the
/// elements of `a` in order.
pub open spec fn embeds(a: Seq<Action>, b: Seq<Action>, idx: Seq<int>) -> bool {
    &&& idx.len() == a.len()
    &&& forall|k: int| 0 <= k < a.len() ==> 0 <= #[trigger] idx[k] < b.len() && a[k] == b[idx[k]]
    &&& forall|k1: int, k2: int| 0 <= k1 < k2 < a.len() ==> #[trigger] idx[k1] < #[trigger] idx[k2]
}

/// `a` is `b` with some actions dropped, the rest kept in order.
pub open spec fn is_subsequence(a: Seq<Action>, b: Seq<Action>) -> bool {
    exists|idx: Seq<int>| #[trigger] embeds(a, b, idx)
}

proof fn lemma_total_concat(a: Seq<Action>, b: Seq<Action>)
    ensures
        total_advance(a + b) == total_advance(a) + total_advance(b),
    decreases b.len(),
{
    if b.len() == 0 {
        assert(a + b =~= a);
    } else {
        assert((a + b).drop_last() =~= a + b.drop_last());
        lemma_total_concat(a, b.drop_last());
    }
}

proof fn lemma_total_remove(s: Seq<Action>, i: int)
    requires
        0 <= i < s.len(),
    ensures
        total_advance(s.remove(i)) <= total_advance(s),
{
    let head = s.take(i);
    let tail = s.skip(i + 1);
    assert(s.remove(i) =~= head + tail);
    assert(s =~= head + (seq![s[i]] + tail));
    lemma_total_concat(head, tail);
    lemma_total_concat(head, seq![s[i]] + tail);
    lemma_total_concat(seq![s[i]], tail);
    assert(seq![s[i]].drop_last() =~= Seq::<Action>::empty());
}

/// A copy of `v` without its `i`-th action.
fn without(v: &Vec<Action>, i: usize) -> (r: Vec<Action>)
    requires
        i < v.len(),
    ensures
        r@ == v@.remove(i as int),
{
    let mut r: Vec<Action> = Vec::new();
    let mut k: usize = 0;
    while k < v.len()
        invariant
            i < v.len(),
            k <= v.len(),
            r@ =~= (if k <= i { v@.take(k as int) } else { v@.take(k as int).remove(i as int) }),
        decreases v.len() - k,
    {
        if k != i {
            r.push(v[k]);
        }
        proof {
            if k < i {
                assert(v@.take(k + 1) =~= v@.take(k as int).push(v@[k as int]));
            } else if k > i {
                assert(v@.take(k + 1).remove(i as int) =~= v@.take(k as int).remove(i as int).push(v@[k as int]));
            } else {
                assert(v@.take(k + 1).remove(i as int) =~= v@.take(k as int));
            }
        }
        k = k + 1;
    }
    assert(v@.take(v.len() as int) =~= v@);
    r
}

/// A copy of `v`.
fn copy_actions(v: &Vec<Action>) -> (r: Vec<Action>)
    ensures
        r@ == v@,
{
    let mut r: Vec<Action> = Vec::new();
    let mut k: usize = 0;
    while k < v.len()
        invariant
            k <= v.len(),
            r@ =~= v@.take(k as int),
        decreases v.len() - k,
    {
        r.push(v[k]);
        proof {
            assert(v@.take(k + 1) =~= v@.take(k as int).push(v@[k as int]));
        }
        k = k + 1;
    }
    assert(v@.take(v.len() as int) =~= v@);
    r
}

/// Some replay of `seq` ended in something other than a break with `v`.
pub open spec fn replay_rejects<E, F: Fn() -> E, R: Fn(E, EngineOp) -> (E, InvariantSnapshot)>(
    fresh: F,
    run: R,
    seq: Seq<Action>,
    v: Violation,
) -> bool {
    exists|r: Option<Violation>| r != Some(v) && #[trigger] replay_post(fresh, run, seq, r)
}

/// One step of shrinking from the state (current sequence, position under test,
/// whether this pass has dropped anything): keep the drop of the position when
/// `dropped`, else move to the next position; a pass that reaches the end after
/// dropping something starts over from the first position.
pub open spec fn shrink_step(s: (Seq<Action>, int, bool), dropped: bool) -> (Seq<Action>, int, bool) {
    let raw = if dropped {
        (s.0.remove(s.1), s.1, true)
    } else {
        (s.0, s.1 + 1, s.2)
    };
    if raw.1 >= raw.0.len() && raw.2 {
        (raw.0, 0, false)
    } else {
        raw
    }
}

/// The shrinking state of `seq` after the replay outcomes `answers`.
pub open spec fn shrink_run(seq: Seq<Action>, answers: Seq<bool>) -> (Seq<Action>, int, bool)
    decreases answers.len(),
{
    if answers.len() == 0 {
        (seq, 0, false)
    } else {
        shrink_step(shrink_run(seq, answers.drop_last()), answers.last())
    }
}

/// From the shrinking state `s`, the replay of the current sequence without the
/// position under test broke with `v` when `dropped`, and did not otherwise.
pub open spec fn step_replayed<E, F: Fn() -> E, R: Fn(E, EngineOp) -> (E, InvariantSnapshot)>(
    fresh: F,
    run: R,
    v: Violation,
    s: (Seq<Action>, int, bool),
    dropped: bool,
) -> bool {
    &&& 0 <= s.1 < s.0.len()
    &&& dropped ==> replay_post(fresh, run, s.0.remove(s.1), Some(v))
    &&& !dropped ==> replay_rejects(fresh, run, s.0.remove(s.1), v)
}

/// `answers` records the replays of a shrink of `seq`, one per entry, in order:
/// each replayed the current sequence without the position under test, and the
/// drop was kept exactly when that replay broke with `v`.
pub open spec fn shrink_trace<E, F: Fn() -> E, R: Fn(E, EngineOp) -> (E, InvariantSnapshot)>(
    fresh: F,
    run: R,
    seq: Seq<Action>,
    v: Violation,
    answers: Seq<bool>,
) -> bool {
    forall|k: int|
        0 <= k < answers.len() ==> #[trigger] step_replayed(fresh, run, v, shrink_run(seq, answers.take(k)), answers[k])
}

proof fn lemma_embeds_remove(a: Seq<Action>, b: Seq<Action>, idx: Seq<int>, i: int)
    requires
        embeds(a, b, idx),
        0 <= i < a.len(),
    ensures
        embeds(a.remove(i), b, idx.remove(i)),
{
    let na = a.remove(i);
    let nidx = idx.remove(i);
    assert forall|k1: int, k2: int| 0 <= k1 < k2 < na.len() implies #[trigger] nidx[k1] < #[trigger] nidx[k2] by {
        let o1 = if k1 < i { k1 } else { k1 + 1 };
        let o2 = if k2 < i { k2 } else { k2 + 1 };
        assert(nidx[k1] == idx[o1]);
        assert(nidx[k2] == idx[o2]);
    }
    assert forall|k: int| 0 <= k < na.len() implies 0 <= #[trigger] nidx[k] < b.len() && na[k] == b[nidx[k]] by {
        let o = if k < i { k } else { k + 1 };
        assert(nidx[k] == idx[o]);
    }
}

proof fn lemma_trace_extend<E, F: Fn() -> E, R: Fn(E, EngineOp) -> (E, InvariantSnapshot)>(
    fresh: F,
    run: R,
    seq: Seq<Action>,
    v: Violation,
    answers: Seq<bool>,
    same: bool,
)
    requires
        shrink_trace(fresh, run, seq, v, answers),
        0 <= shrink_run(seq, answers).1 < shrink_run(seq, answers).0.len(),
        same ==> replay_post(
            fresh,
            run,
            shrink_run(seq, answers).0.remove(shrink_run(seq, answers).1),
            Some(v),
        ),
        !same ==> replay_rejects(
            fresh,
            run,
            shrink_run(seq, answers).0.remove(shrink_run(seq, answers).1),
            v,
        ),
    ensures
        shrink_trace(fresh, run, seq, v, answers.push(same)),
        shrink_run(seq, answers.push(same)) == shrink_step(shrink_run(seq, answers), same),
{
    let na = answers.push(same);
    assert(na.drop_last() =~= answers);
    assert forall|k: int| 0 <= k < na.len() implies #[trigger] step_replayed(fresh, run, v, shrink_run(seq, na.take(k)), na[k]) by {
        if k < answers.len() {
            assert(na.take(k) =~= answers.take(k));
            assert(na[k] == answers[k]);
            assert(step_replayed(fresh, run, v, shrink_run(seq, answers.take(k)), answers[k]));
        } else {
            assert(na.take(k) =~= answers);
        }
    }
}

/// `result` is what shrinking `seq` for the violation `v` gives: a subsequence of
/// `seq` that still breaks with `v`, from which dropping any one action gives a
/// sequence whose replay does not break with `v`, reached by the recorded passes.
pub open spec fn shrunk<E, F: Fn() -> E, R: Fn(E, EngineOp) -> (E, InvariantSnapshot)>(
    fresh: F,
    run: R,
    seq: Seq<Action>,
    v: Violation,
    result: Seq<Action>,
) -> bool {
    &&& is_subsequence(result, seq)
    &&& result.len() <= seq.len()
    &&& replay_post(fresh, run, result, Some(v))
    &&& forall|k: int| 0 <= k < result.len() ==> replay_rejects(fresh, run, #[trigger] result.remove(k), v)
    &&& exists|answers: Seq<bool>|
        #[trigger] shrink_trace(fresh, run, seq, v, answers)
            && shrink_run(seq, answers) == (result, result.len() as int, false)
}

/// Delta-debug a breaking sequence: pass over its positions, dropping each action
/// whose removal still breaks with the same violation `v`, and repeat the pass
/// until one drops nothing. The result is minimal: dropping any single action of
/// it no longer breaks with `v`.
pub fn shrink<E, F: Fn() -> E, R: Fn(E, EngineOp) -> (E, InvariantSnapshot)>(
    fresh: &F,
    run: &R,
    seq: &Vec<Action>,
    v: Violation,
) -> (cur: Vec<Action>)
    requires
        closures_callable(*fresh, *run),
        total_advance(seq@) <= u64::MAX,
        replay_post(*fresh, *run, seq@, Some(v)),
    ensures
        shrunk(*fresh, *run, seq@, v, cur@),
{
    let mut cur = copy_actions(seq);
    assert(shrink_trace(*fresh, *run, seq@, v, Seq::<bool>::empty()));
    let ghost mut idx: Seq<int> = Seq::new(seq.len() as nat, |k: int| k);
    let ghost mut answers: Seq<bool> = Seq::empty();
    let mut i: usize = 0;
    let mut changed = false;
    while i < cur.len()
        invariant
            closures_callable(*fresh, *run),
            total_advance(seq@) <= u64::MAX,
            total_advance(cur@) <= total_advance(seq@),
            embeds(cur@, seq@, idx),
            cur.len() <= seq.len(),
            i <= cur.len(),
            replay_post(*fresh, *run, cur@, Some(v)),
            shrink_trace(*fresh, *run, seq@, v, answers),
            shrink_run(seq@, answers) == (cur@, i as int, changed),
            !(i >= cur.len() && changed),
            !changed ==> forall|k: int| 0 <= k < i ==> replay_rejects(*fresh, *run, #[trigger] cur@.remove(k), v),
        decreases cur.len(), (if changed { 1int } else { 0int }), cur.len() - i,
    {
        let ghost before = (cur@, i as int, changed);
        let ghost old_cur = cur@;
        let ghost old_i = i as int;
        let trial = without(&cur, i);
        proof {
            lemma_total_remove(cur@, i as int);
        }
        let r = replay_breaks(fresh, run, &trial);
        let same = match r {
            Some(w) => w == v,
            None => false,
        };
        proof {
            if !same {
                assert(r != Some(v));
                assert(replay_rejects(*fresh, *run, trial@, v));
            }
        }
        if same {
            proof {
                lemma_embeds_remove(cur@, seq@, idx, i as int);
                idx = idx.remove(i as int);
            }
            cur = trial;
            changed = true;
        } else {
            i = i + 1;
        }
        if i >= cur.len() && changed {
            i = 0;
            changed = false;
        }
        proof {
            lemma_trace_extend(*fresh, *run, seq@, v, answers, same);
            answers = answers.push(same);
        }
    }
    proof {
        assert(embeds(cur@, seq@, idx));
    }
    cur
}

proof fn lemma_random_advance_bounded(s: u64)
    ensures
        advance(random_action_spec(s).0) <= 10,
{
}

proof fn lemma_trial_advance_bounded(s: u64, n: nat)
    ensures
        total_advance(actions_from(s, n)) <= 10 * n,
        actions_from(s, n).len() == n,
    decreases n,
{
    if n > 0 {
        lemma_trial_advance_bounded(s, (n - 1) as nat);
        let prev = actions_from(s, (n - 1) as nat);
        let act = random_action_spec(rng_after(s, (n - 1) as nat)).0;
        assert(prev.push(act).drop_last() =~= prev);
        lemma_random_advance_bounded(rng_after(s, (n - 1) as nat));
    }
}

proof fn lemma_trial_seq_bounded(seed: u64, t: int, steps: nat)
    ensures
        total_advance(trial_seq(seed, t, steps)) <= 10 * steps,
{
    reveal(trial_seq);
    lemma_trial_advance_bounded(trial_seed(seed, t), steps);
}

/// Trial `t` broke the contract and `seq` is its shrunk counterexample: every
/// earlier trial replayed clean, trial `t` replayed to `v`, and `seq` is what
/// shrinking trial `t` for `v` gives.
pub open spec fn found_in_trial<E, F: Fn() -> E, R: Fn(E, EngineOp) -> (E, InvariantSnapshot)>(
    fresh: F,
    run: R,
    seed: u64,
    t: int,
    steps: nat,
    seq: Seq<Action>,
    v: Violation,
) -> bool {
    &&& forall|t2: int| 0 <= t2 < t ==> replay_post(fresh, run, #[trigger] trial_seq(seed, t2, steps), None)
    &&& replay_post(fresh, run, trial_seq(seed, t, steps), Some(v))
    &&& shrunk(fresh, run, trial_seq(seed, t, steps), v, seq)
}

/// What a search returns: `NoBreak` with the number of trials when every trial
/// replayed clean; otherwise `Found` with the first breaking trial's shrunk
/// counterexample and its violation.
pub open spec fn search_post<E, F: Fn() -> E, R: Fn(E, EngineOp) -> (E, InvariantSnapshot)>(
    fresh: F,
    run: R,
    seed: u64,
    trials: usize,
    steps: usize,
    out: Outcome,
) -> bool {
    &&& out matches Outcome::NoBreak { trials: n } ==> {
        &&& n == trials
        &&& forall|t: int|
            0 <= t < trials ==> replay_post(fresh, run, #[trigger] trial_seq(seed, t, steps as nat), None)
    }
    &&& out matches Outcome::Found { seq, violation } ==> exists|t: int|
        0 <= t < trials && #[trigger] found_in_trial(fresh, run, seed, t, steps as nat, seq@, violation)
}

/// Replay `trials` reproducible random sequences of `steps` actions (trial `t`
/// seeded from `seed + t + 1`) on fresh engines, checking the contract after
/// every action. On the first break, return it shrunk; otherwise `NoBreak`.
pub fn search<E, F: Fn() -> E, R: Fn(E, EngineOp) -> (E, InvariantSnapshot)>(
    fresh: &F,
    run: &R,
    seed: u64,
    trials: usize,
    steps: usize,
) -> (out: Outcome)
    requires
        closures_callable(*fresh, *run),
        10 * steps <= u64::MAX,
    ensures
        search_post(*fresh, *run, seed, trials, steps, out),
{
    let mut t: usize = 0;
    while t < trials
        invariant
            closures_callable(*fresh, *run),
            10 * steps <= u64::MAX,
            t <= trials,
            forall|t2: int|
                0 <= t2 < t ==> replay_post(*fresh, *run, #[trigger] trial_seq(seed, t2, steps as nat), None),
        decreases trials - t,
    {
        let seq = trial_actions(seed, t, steps);
        proof {
            lemma_trial_seq_bounded(seed, t as int, steps as nat);
        }
        match replay_breaks(fresh, run, &seq) {
            Some(v) => {
                let shrunk = shrink(fresh, run, &seq, v);
                assert(found_in_trial(*fresh, *run, seed, t as int, steps as nat, shrunk@, v));
                let ghost shrunk_view = shrunk@;
                let out = Outcome::Found { seq: shrunk, violation: v };
                assert(out matches Outcome::Found { seq, violation } && seq@ == shrunk_view && violation == v);
                return out;
            },
            None => {},
        }
        t = t + 1;
    }
    Outcome::NoBreak { trials }
}

/// Each closure gives one result per argument: every fresh engine is the same,
/// and applying an operation to an engine has one outcome.
pub open spec fn closures_functional<E, F: Fn() -> E, R: Fn(E, EngineOp) -> (E, InvariantSnapshot)>(
    fresh: F,
    run: R,
) -> bool {
    &&& forall|e1: E, e2: E|
        #[trigger] call_ensures(fresh, (), e1) && #[trigger] call_ensures(fresh, (), e2) ==> e1 == e2
    &&& forall|e: E, op: EngineOp, r1: (E, InvariantSnapshot), r2: (E, InvariantSnapshot)|
        #[trigger] call_ensures(run, (e, op), r1) && #[trigger] call_ensures(run, (e, op), r2) ==> r1 == r2
}

proof fn lemma_traces_agree<E, F: Fn() -> E, R: Fn(E, EngineOp) -> (E, InvariantSnapshot)>(
    fresh: F,
    run: R,
    seq: Seq<Action>,
    n1: int,
    engs1: Seq<E>,
    snaps1: Seq<InvariantSnapshot>,
    n2: int,
    engs2: Seq<E>,
    snaps2: Seq<InvariantSnapshot>,
    j: int,
)
    requires
        closures_functional(fresh, run),
        replay_trace(fresh, run, seq, n1, engs1, snaps1),
        replay_trace(fresh, run, seq, n2, engs2, snaps2),
        0 <= j <= n1,
        j <= n2,
    ensures
        engs1[j] == engs2[j],
        j > 0 ==> snaps1[j - 1] == snaps2[j - 1],
    decreases j,
{
    if j > 0 {
        lemma_traces_agree(fresh, run, seq, n1, engs1, snaps1, n2, engs2, snaps2, j - 1);
        let op = planned_ops(seq)[j - 1];
        assert(call_ensures(run, (engs1[j - 1], op), (engs1[j], snaps1[j - 1])));
        assert(call_ensures(run, (engs2[j - 1], op), (engs2[j], snaps2[j - 1])));
    } else {
        assert(call_ensures(fresh, (), engs1[0]));
        assert(call_ensures(fresh, (), engs2[0]));
    }
}

/// With functional closures, a replay of a sequence has one result.
pub proof fn lemma_replay_unique<E, F: Fn() -> E, R: Fn(E, EngineOp) -> (E, InvariantSnapshot)>(
    fresh: F,
    run: R,
    seq: Seq<Action>,
    r1: Option<Violation>,
    r2: Option<Violation>,
)
    requires
        closures_functional(fresh, run),
        replay_post(fresh, run, seq, r1),
        replay_post(fresh, run, seq, r2),
    ensures
        r1 == r2,
{
    reveal(replay_post);
    let (n1, engs1, snaps1) = choose|n: int, engs: Seq<E>, snaps: Seq<InvariantSnapshot>|
        replay_witness(fresh, run, seq, r1, n, engs, snaps);
    let (n2, engs2, snaps2) = choose|n: int, engs: Seq<E>, snaps: Seq<InvariantSnapshot>|
        replay_witness(fresh, run, seq, r2, n, engs, snaps);
    if n1 <= n2 {
        if n1 > 0 {
            lemma_traces_agree(fresh, run, seq, n1, engs1, snaps1, n2, engs2, snaps2, n1);
        }
        if n1 < n2 {
            lemma_traces_agree(fresh, run, seq, n1, engs1, snaps1, n2, engs2, snaps2, n1);
            if n1 > 0 {
                assert(contract_result(snaps2[n1 - 1]) is Ok);
            }
        }
    } else {
        lemma_traces_agree(fresh, run, seq, n1, engs1, snaps1, n2, engs2, snaps2, n2);
        if n2 > 0 {
            assert(contract_result(snaps1[n2 - 1]) is Ok);
        }
    }
}

proof fn lemma_answers_agree<E, F: Fn() -> E, R: Fn(E, EngineOp) -> (E, InvariantSnapshot)>(
    fresh: F,
    run: R,
    seq: Seq<Action>,
    v: Violation,
    a1: Seq<bool>,
    a2: Seq<bool>,
    k: int,
)
    requires
        closures_functional(fresh, run),
        shrink_trace(fresh, run, seq, v, a1),
        shrink_trace(fresh, run, seq, v, a2),
        0 <= k <= a1.len(),
        k <= a2.len(),
    ensures
        a1.take(k) =~= a2.take(k),
    decreases k,
{
    if k > 0 {
        let j = k - 1;
        lemma_answers_agree(fresh, run, seq, v, a1, a2, j);
        assert(a1.take(j) =~= a2.take(j));
        let st = shrink_run(seq, a1.take(j));
        assert(step_replayed(fresh, run, v, shrink_run(seq, a1.take(j)), a1[j]));
        assert(step_replayed(fresh, run, v, shrink_run(seq, a2.take(j)), a2[j]));
        let trial = st.0.remove(st.1);
        if a1[j] != a2[j] {
            assert(replay_post(fresh, run, trial, Some(v)));
            assert(replay_rejects(fresh, run, trial, v));
            let r = choose|r: Option<Violation>| r != Some(v) && replay_post(fresh, run, trial, r);
            lemma_replay_unique(fresh, run, trial, r, Some(v));
        }
        assert(a1.take(k) =~= a1.take(j).push(a1[j]));
        assert(a2.take(k) =~= a2.take(j).push(a2[j]));
    }
}

/// With functional closures, shrinking a sequence for a violation has one result.
pub proof fn lemma_shrunk_unique<E, F: Fn() -> E, R: Fn(E, EngineOp) -> (E, InvariantSnapshot)>(
    fresh: F,
    run: R,
    seq: Seq<Action>,
    v: Violation,
    res1: Seq<Action>,
    res2: Seq<Action>,
)
    requires
        closures_functional(fresh, run),
        shrunk(fresh, run, seq, v, res1),
        shrunk(fresh, run, seq, v, res2),
    ensures
        res1 == res2,
{
    let a1 = choose|answers: Seq<bool>|
        shrink_trace(fresh, run, seq, v, answers) && shrink_run(seq, answers) == (res1, res1.len() as int, false);
    let a2 = choose|answers: Seq<bool>|
        shrink_trace(fresh, run, seq, v, answers) && shrink_run(seq, answers) == (res2, res2.len() as int, false);
    if a1.len() < a2.len() {
        let k = a1.len() as int;
        lemma_answers_agree(fresh, run, seq, v, a1, a2, k);
        assert(a1.take(k) =~= a1);
        assert(step_replayed(fresh, run, v, shrink_run(seq, a2.take(k)), a2[k]));
    } else if a2.len() < a1.len() {
        let k = a2.len() as int;
        lemma_answers_agree(fresh, run, seq, v, a1, a2, k);
        assert(a2.take(k) =~= a2);
        assert(step_replayed(fresh, run, v, shrink_run(seq, a1.take(k)), a1[k]));
    } else {
        let k = a1.len() as int;
        lemma_answers_agree(fresh, run, seq, v, a1, a2, k);
        assert(a1.take(k) =~= a1);
        assert(a2.take(k) =~= a2);
    }
}

/// A search is reproducible: over closures that give one result per argument,
/// two searches with the same seed, number of trials and steps end alike, with
/// the same number of trials, or with the same counterexample and violation.
pub proof fn lemma_search_deterministic<E, F: Fn() -> E, R: Fn(E, EngineOp) -> (E, InvariantSnapshot)>(
    fresh: F,
    run: R,
    seed: u64,
    trials: usize,
    steps: usize,
    o1: Outcome,
    o2: Outcome,
)
    requires
        closures_functional(fresh, run),
        search_post(fresh, run, seed, trials, steps, o1),
        search_post(fresh, run, seed, trials, steps, o2),
    ensures
        o1 is NoBreak <==> o2 is NoBreak,
        o1 is NoBreak ==> o1->trials == o2->trials,
        o1 is Found ==> o1->seq@ == o2->seq@ && o1->violation == o2->violation,
{
    let sn = steps as nat;
    if o1 is Found {
        let t1 = choose|t: int| 0 <= t < trials && found_in_trial(fresh, run, seed, t, sn, o1->seq@, o1->violation);
        if o2 is Found {
            let t2 = choose|t: int| 0 <= t < trials && found_in_trial(fresh, run, seed, t, sn, o2->seq@, o2->violation);
            if t1 < t2 {
                assert(replay_post(fresh, run, trial_seq(seed, t1, sn), None));
                lemma_replay_unique(fresh, run, trial_seq(seed, t1, sn), None, Some(o1->violation));
            } else if t2 < t1 {
                assert(replay_post(fresh, run, trial_seq(seed, t2, sn), None));
                lemma_replay_unique(fresh, run, trial_seq(seed, t2, sn), None, Some(o2->violation));
            } else {
                lemma_replay_unique(
                    fresh, run, trial_seq(seed, t1, sn), Some(o1->violation), Some(o2->violation));
                lemma_shrunk_unique(fresh, run, trial_seq(seed, t1, sn), o1->violation, o1->seq@, o2->seq@);
            }
        } else {
            assert(replay_post(fresh, run, trial_seq(seed, t1, sn), None));
            lemma_replay_unique(fresh, run, trial_seq(seed, t1, sn), None, Some(o1->violation));
        }
    } else if o2 is Found {
        let t2 = choose|t: int| 0 <= t < trials && found_in_trial(fresh, run, seed, t, sn, o2->seq@, o2->violation);
        assert(replay_post(fresh, run, trial_seq(seed, t2, sn), None));
        lemma_replay_unique(fresh, run, trial_seq(seed, t2, sn), None, Some(o2->violation));
    }
}

} // verus!
