//! The composed tick, as a sequence of verified decisions around the feed, the
//! equity session engine and the insured risk engine.
//!
//! One tick runs in two halves. `EngineCore::begin_tick` records the clock and says
//! what the feed needs (the elapsed time and the current perp mark). The feed's
//! output then yields the equity engine's liveness input (`liveness`), and
//! `EngineCore::finish_tick` folds the feed tick and the equity state into the
//! engine inputs and gates that every later order is built from. Orders are built
//! by `open_order`, `liquidation_order` and `withdrawal_order`: opens are refused
//! while the session gates risk increase; liquidation and withdrawal never are.

use vstd::prelude::*;
use crate::convert::{
    clamp_price, MAX_ORACLE_PRICE,
    equity_gates, equity_to_engine, feed_inputs, feed_to_engine, ConvertCfg, EngineGates,
    EngineInputs, EquityRiskState, FeedTick, Admission, CONF,
};

verus! {

/// Number of price venues the composed feed consumes.
pub const N_VENUES: usize = 4;

/// One venue observation fed to the price feed each tick.
#[derive(Clone, Copy, PartialEq, Eq, Debug)]
pub struct VenueObs {
    pub venue: usize,
    pub price: u64,
    pub depth: u64,
}

/// The calendar's view of the underlying market's session.
#[derive(Clone, Copy, PartialEq, Eq, Debug)]
pub enum CalendarState {
    Open,
    Closed,
    Halted,
}

/// The liveness signal handed to the equity engine.
#[derive(Clone, Copy, PartialEq, Eq, Debug)]
pub struct Liveness {
    pub underlying_staleness_slots: u32,
    pub confidence: u32,
}

/// The composed view after a tick.
#[derive(Clone, Copy, PartialEq, Eq, Debug)]
pub struct EngineState {
    pub tick: FeedTick,
    pub inputs: EngineInputs,
    pub gates: EngineGates,
    pub now_slot: u64,
}

/// What the feed needs to produce this tick's output.
#[derive(Clone, Copy, PartialEq, Eq, Debug)]
pub struct TickRequest {
    /// Elapsed time since the previous tick, at least one.
    pub dt: u64,
    /// The current perp mark: the previous tick's oracle price.
    pub perp_mark: u64,
}

/// The arguments of a risk-increasing trade on the insured engine.
#[derive(Clone, Copy, PartialEq, Eq, Debug)]
pub struct TradeOrder {
    pub a: u16,
    pub b: u16,
    pub oracle_price: u64,
    pub now_slot: u64,
    pub size_q: i128,
    pub exec_price: u64,
    pub funding_e9: i128,
    pub admit_h_min: u64,
    pub admit_h_max: u64,
    /// The session's margin multiplier, on a 1e9 scale.
    pub margin_mult: u64,
    /// The session's reopen buffer, as a fraction of notional on a 1e9 scale.
    pub reopen_gap_margin: u64,
}

/// The arguments of a full-close liquidation on the insured engine.
#[derive(Clone, Copy, PartialEq, Eq, Debug)]
pub struct LiquidationOrder {
    pub idx: u16,
    pub now_slot: u64,
    pub oracle_price: u64,
    pub funding_e9: i128,
    pub admit_h_min: u64,
    pub admit_h_max: u64,
    /// The session's margin multiplier, on a 1e9 scale.
    pub margin_mult: u64,
    /// The session's reopen buffer, as a fraction of notional on a 1e9 scale.
    pub reopen_gap_margin: u64,
}

/// The arguments of a withdrawal on the insured engine.
#[derive(Clone, Copy, PartialEq, Eq, Debug)]
pub struct WithdrawalOrder {
    pub idx: u16,
    pub amount: u128,
    pub price: u64,
    pub now_slot: u64,
    pub funding_e9: i128,
    pub admit_h_min: u64,
    pub admit_h_max: u64,
    /// The session's margin multiplier, on a 1e9 scale.
    pub margin_mult: u64,
    /// The session's reopen buffer, as a fraction of notional on a 1e9 scale.
    pub reopen_gap_margin: u64,
}

/// Basis points in one.
pub const BPS: u64 = 10_000;

/// The scale of margin multipliers and reopen buffers: 1e9 is one.
pub const GATE_SCALE: u64 = 1_000_000_000;

/// The margin requirement, in basis points, that a session imposes on top of a
/// configured base: the base scaled by the session's margin multiplier, plus the
/// reopen buffer converted to basis points (each term rounded down), capped at
/// `u64::MAX`. This fold is this library's own choice of how the two session
/// inputs combine with a configured margin; it does not account for any
/// volatility multiplier the insured engine applies on its own, so the two may
/// count the same risk twice.
pub open spec fn session_margin(base_bps: u64, margin_mult: u64, reopen_gap_margin: u64) -> u64 {
    let m = (base_bps * margin_mult) / (GATE_SCALE as int) + (reopen_gap_margin * BPS) / (GATE_SCALE as int);
    if m > u64::MAX { u64::MAX } else { m as u64 }
}

/// The mathematical state of an `EngineCore`.
pub struct CoreView {
    pub convert_cfg: ConvertCfg,
    pub last_state: EngineState,
    pub last_ts: u64,
    pub reconcile_enabled: bool,
}

/// The decision state of the composed engine: the adapter configuration, the
/// last composed view, the last timestamp and whether the premium pool is
/// reconciled against the fund each tick.
pub struct EngineCore {
    convert_cfg: ConvertCfg,
    last_state: EngineState,
    last_ts: u64,
    reconcile_enabled: bool,
}

/// The adapter configuration can compute a warmup band at any confidence.
pub open spec fn cfg_fits(cfg: ConvertCfg) -> bool {
    cfg.h_max_cap * (CONF as int) <= u64::MAX
}

/// The feed tick the engine assumes before its first real tick.
pub open spec fn initial_tick(init_price: u64) -> FeedTick {
    FeedTick {
        fast_price: init_price,
        extraction_price: init_price,
        funding_e9: 0,
        confidence: CONF,
        extraction_gate: CONF,
        vol_mult: 1_000_000_000,
    }
}

/// The gates the engine assumes before its first real tick: opens allowed,
/// unit margin multiplier, no reopen buffer, no warmup, marked to the underlying.
pub open spec fn initial_gates() -> EngineGates {
    EngineGates {
        allow_open: true,
        margin_mult: 1_000_000_000,
        reopen_gap_margin: 0,
        extraction_warmup: 0,
        mark_underlying: true,
    }
}

/// The state of a freshly built engine.
pub open spec fn initial_view(cfg: ConvertCfg, init_price: u64, init_slot: u64) -> CoreView {
    CoreView {
        convert_cfg: cfg,
        last_state: EngineState {
            tick: initial_tick(init_price),
            inputs: feed_inputs(initial_tick(init_price), cfg),
            gates: initial_gates(),
            now_slot: init_slot,
        },
        last_ts: 0,
        reconcile_enabled: true,
    }
}

/// Elapsed time since `last_ts`, floored at one.
pub open spec fn elapsed(last_ts: u64, now_ts: u64) -> u64 {
    if now_ts > last_ts && now_ts - last_ts > 1 {
        (now_ts - last_ts) as u64
    } else {
        1
    }
}

/// The composed view that a tick produces from a feed tick and an equity state.
pub open spec fn composed_state(
    cfg: ConvertCfg,
    tick: FeedTick,
    eq: EquityRiskState,
    now_slot: u64,
) -> EngineState {
    EngineState {
        tick,
        inputs: feed_inputs(tick, cfg),
        gates: equity_gates(eq),
        now_slot,
    }
}

/// The engine after the second half of a tick.
pub open spec fn after_tick(v: CoreView, tick: FeedTick, eq: EquityRiskState, now_slot: u64) -> CoreView {
    CoreView { last_state: composed_state(v.convert_cfg, tick, eq, now_slot), ..v }
}

/// Whether the engine currently accepts a risk-increasing open.
pub open spec fn opens_allowed(v: CoreView) -> bool {
    v.last_state.gates.allow_open
}

/// The trade an allowed open submits: at the oracle price, with the last funding
/// and the engine's configured admission band `[0, h_max_cap]`.
pub open spec fn trade_for(v: CoreView, a: u16, b: u16, size_q: i128, now_slot: u64) -> TradeOrder {
    let inp = v.last_state.inputs;
    TradeOrder {
        a,
        b,
        oracle_price: inp.oracle_price,
        now_slot,
        size_q,
        exec_price: inp.oracle_price,
        funding_e9: inp.funding_e9,
        admit_h_min: 0,
        admit_h_max: v.convert_cfg.h_max_cap,
        margin_mult: v.last_state.gates.margin_mult,
        reopen_gap_margin: v.last_state.gates.reopen_gap_margin,
    }
}

/// The liquidation a request submits: at the fast (oracle) price, with the
/// configured admission band.
pub open spec fn liquidation_for(v: CoreView, idx: u16, now_slot: u64) -> LiquidationOrder {
    let inp = v.last_state.inputs;
    LiquidationOrder {
        idx,
        now_slot,
        oracle_price: inp.oracle_price,
        funding_e9: inp.funding_e9,
        admit_h_min: 0,
        admit_h_max: v.convert_cfg.h_max_cap,
        margin_mult: v.last_state.gates.margin_mult,
        reopen_gap_margin: v.last_state.gates.reopen_gap_margin,
    }
}

/// The withdrawal a request submits: at the confirmed extraction price, with the
/// configured admission band.
pub open spec fn withdrawal_for(v: CoreView, idx: u16, amount: u128, now_slot: u64) -> WithdrawalOrder {
    let inp = v.last_state.inputs;
    WithdrawalOrder {
        idx,
        amount,
        price: inp.extraction_price,
        now_slot,
        funding_e9: inp.funding_e9,
        admit_h_min: 0,
        admit_h_max: v.convert_cfg.h_max_cap,
        margin_mult: v.last_state.gates.margin_mult,
        reopen_gap_margin: v.last_state.gates.reopen_gap_margin,
    }
}

/// The equity engine's liveness input: without fresh observations the underlying
/// has gone stale for the elapsed time (truncated to 32 bits), otherwise not at all.
pub open spec fn liveness_for(obs_empty: bool, dt: u64, confidence: u32) -> Liveness {
    Liveness {
        underlying_staleness_slots: if obs_empty { dt as u32 } else { 0 },
        confidence,
    }
}

impl View for EngineCore {
    type V = CoreView;

    closed spec fn view(&self) -> CoreView {
        CoreView {
            convert_cfg: self.convert_cfg,
            last_state: self.last_state,
            last_ts: self.last_ts,
            reconcile_enabled: self.reconcile_enabled,
        }
    }
}

proof fn lemma_cfg_fits_any_gate(cfg: ConvertCfg, gate: u32)
    requires
        cfg_fits(cfg),
    ensures
        crate::convert::band_fits(cfg, gate),
{
    let g = crate::convert::capped_gate(gate);
    let h = cfg.h_max_cap;
    assert(h * g <= h * (CONF as int)) by (nonlinear_arith)
        requires
            0 <= g <= 1_000_000,
            0 <= h,
    ;
}

impl EngineCore {
    #[verifier::type_invariant]
    spec fn inv(self) -> bool {
        &&& cfg_fits(self.convert_cfg)
        &&& self.last_state.inputs == feed_inputs(self.last_state.tick, self.convert_cfg)
    }

    /// A fresh engine priced at `init_price` at slot `init_slot`, with full
    /// confidence, opens allowed and reconciliation on.
    pub fn new(convert_cfg: ConvertCfg, init_price: u64, init_slot: u64) -> (core: Self)
        requires
            cfg_fits(convert_cfg),
        ensures
            core@ == initial_view(convert_cfg, init_price, init_slot),
            core@.convert_cfg == convert_cfg,
            core@.last_state.tick.fast_price == init_price,
            core@.last_state.tick.extraction_price == init_price,
            core@.last_state.tick.funding_e9 == 0,
            core@.last_state.now_slot == init_slot,
            core@.last_state.gates.allow_open,
            core@.last_state.gates.mark_underlying,
            core@.last_ts == 0,
            core@.reconcile_enabled,
    {
        let init_tick = FeedTick {
            fast_price: init_price,
            extraction_price: init_price,
            funding_e9: 0,
            confidence: CONF,
            extraction_gate: CONF,
            vol_mult: 1_000_000_000,
        };
        proof {
            lemma_cfg_fits_any_gate(convert_cfg, CONF);
        }
        let inputs = feed_to_engine(&init_tick, &convert_cfg);
        let gates = EngineGates {
            allow_open: true,
            margin_mult: 1_000_000_000,
            reopen_gap_margin: 0,
            extraction_warmup: 0,
            mark_underlying: true,
        };
        EngineCore {
            convert_cfg,
            last_state: EngineState { tick: init_tick, inputs, gates, now_slot: init_slot },
            last_ts: 0,
            reconcile_enabled: true,
        }
    }

    /// Toggle the pool/fund reconciliation step (on by default). Turning it off
    /// models an integrator that collects premium but never reconciles.
    pub fn set_reconcile_enabled(&mut self, v: bool)
        ensures
            final(self)@ == (CoreView { reconcile_enabled: v, ..old(self)@ }),
    {
        proof {
            use_type_invariant(&*self);
        }
        self.reconcile_enabled = v;
    }

    /// Whether each tick reconciles the premium pool against the fund.
    pub fn reconcile_enabled(&self) -> (r: bool)
        ensures
            r == self@.reconcile_enabled,
    {
        self.reconcile_enabled
    }

    /// The composed view of the last tick.
    pub fn state(&self) -> (st: EngineState)
        ensures
            st == self@.last_state,
            st.inputs == feed_inputs(st.tick, self@.convert_cfg),
            cfg_fits(self@.convert_cfg),
    {
        proof {
            use_type_invariant(self);
        }
        self.last_state
    }

    /// First half of a tick: record `now_ts` and return the elapsed time (at
    /// least one) and the perp mark the feed needs.
    pub fn begin_tick(&mut self, now_ts: u64) -> (req: TickRequest)
        ensures
            req.dt == elapsed(old(self)@.last_ts, now_ts),
            req.dt >= 1,
            req.perp_mark == old(self)@.last_state.inputs.oracle_price,
            final(self)@ == (CoreView { last_ts: now_ts, ..old(self)@ }),
            now_ts > old(self)@.last_ts ==> req.dt == now_ts - old(self)@.last_ts,
            now_ts <= old(self)@.last_ts ==> req.dt == 1,
            final(self)@.last_ts == now_ts,
            final(self)@.last_state == old(self)@.last_state,
    {
        proof {
            use_type_invariant(&*self);
        }
        let dt = now_ts.saturating_sub(self.last_ts).max(1);
        self.last_ts = now_ts;
        TickRequest { dt, perp_mark: self.last_state.inputs.oracle_price }
    }

    /// Second half of a tick: derive the engine inputs from the feed tick and the
    /// gates from the equity state, and record them as the current view.
    pub fn finish_tick(&mut self, tick: FeedTick, eq: &EquityRiskState, now_slot: u64) -> (st: EngineState)
        ensures
            st == composed_state(old(self)@.convert_cfg, tick, *eq, now_slot),
            final(self)@ == after_tick(old(self)@, tick, *eq, now_slot),
            st.tick == tick,
            st.now_slot == now_slot,
            st.inputs == feed_inputs(tick, old(self)@.convert_cfg),
            st.gates == equity_gates(*eq),
            final(self)@.last_state == st,
            final(self)@.convert_cfg == old(self)@.convert_cfg,
            final(self)@.last_ts == old(self)@.last_ts,
            final(self)@.reconcile_enabled == old(self)@.reconcile_enabled,
    {
        proof {
            use_type_invariant(&*self);
            lemma_cfg_fits_any_gate(self.convert_cfg, tick.extraction_gate);
        }
        let inputs = feed_to_engine(&tick, &self.convert_cfg);
        let gates = equity_to_engine(eq);
        let st = EngineState { tick, inputs, gates, now_slot };
        self.last_state = st;
        st
    }

    /// The trade for an open of `size_q` between `a` and `b`, or `None` when the
    /// session gates forbid risk increase (the open is then a no-op).
    pub fn open_order(&self, a: u16, b: u16, size_q: i128, now_slot: u64) -> (order: Option<TradeOrder>)
        ensures
            order is None <==> !opens_allowed(self@),
            order matches Some(o) ==> o == trade_for(self@, a, b, size_q, now_slot),
            order is None <==> !self@.last_state.gates.allow_open,
            order matches Some(o) ==> {
                &&& o.a == a
                &&& o.b == b
                &&& o.size_q == size_q
                &&& o.now_slot == now_slot
                &&& o.oracle_price == self@.last_state.inputs.oracle_price
                &&& o.exec_price == self@.last_state.inputs.oracle_price
                &&& o.funding_e9 == self@.last_state.inputs.funding_e9
                &&& o.admit_h_min == 0
                &&& o.admit_h_max == self@.convert_cfg.h_max_cap
                &&& o.margin_mult == self@.last_state.gates.margin_mult
                &&& o.reopen_gap_margin == self@.last_state.gates.reopen_gap_margin
            },
    {
        if !self.last_state.gates.allow_open {
            return None;
        }
        let inp = self.last_state.inputs;
        Some(TradeOrder {
            a,
            b,
            oracle_price: inp.oracle_price,
            now_slot,
            size_q,
            exec_price: inp.oracle_price,
            funding_e9: inp.funding_e9,
            admit_h_min: 0,
            admit_h_max: self.convert_cfg.h_max_cap,
            margin_mult: self.last_state.gates.margin_mult,
            reopen_gap_margin: self.last_state.gates.reopen_gap_margin,
        })
    }

    /// The liquidation of `idx` at the fast price. Never gated.
    pub fn liquidation_order(&self, idx: u16, now_slot: u64) -> (order: LiquidationOrder)
        ensures
            order == liquidation_for(self@, idx, now_slot),
            order.idx == idx,
            order.now_slot == now_slot,
            order.oracle_price == self@.last_state.inputs.oracle_price,
            order.funding_e9 == self@.last_state.inputs.funding_e9,
            order.admit_h_min == 0,
            order.admit_h_max == self@.convert_cfg.h_max_cap,
            order.margin_mult == self@.last_state.gates.margin_mult,
            order.reopen_gap_margin == self@.last_state.gates.reopen_gap_margin,
    {
        let inp = self.last_state.inputs;
        LiquidationOrder {
            idx,
            now_slot,
            oracle_price: inp.oracle_price,
            funding_e9: inp.funding_e9,
            admit_h_min: 0,
            admit_h_max: self.convert_cfg.h_max_cap,
            margin_mult: self.last_state.gates.margin_mult,
            reopen_gap_margin: self.last_state.gates.reopen_gap_margin,
        }
    }

    /// The withdrawal of `amount` from `idx` at the persistence-confirmed price
    /// with the current warmup band. Never gated.
    pub fn withdrawal_order(&self, idx: u16, amount: u128, now_slot: u64) -> (order: WithdrawalOrder)
        ensures
            order == withdrawal_for(self@, idx, amount, now_slot),
            order.idx == idx,
            order.amount == amount,
            order.now_slot == now_slot,
            order.price == self@.last_state.inputs.extraction_price,
            order.funding_e9 == self@.last_state.inputs.funding_e9,
            order.admit_h_min == 0,
            order.admit_h_max == self@.convert_cfg.h_max_cap,
            order.margin_mult == self@.last_state.gates.margin_mult,
            order.reopen_gap_margin == self@.last_state.gates.reopen_gap_margin,
    {
        let inp = self.last_state.inputs;
        WithdrawalOrder {
            idx,
            amount,
            price: inp.extraction_price,
            now_slot,
            funding_e9: inp.funding_e9,
            admit_h_min: 0,
            admit_h_max: self.convert_cfg.h_max_cap,
            margin_mult: self.last_state.gates.margin_mult,
            reopen_gap_margin: self.last_state.gates.reopen_gap_margin,
        }
    }
}

/// Fold a session's margin multiplier and reopen buffer into a configured margin
/// requirement in basis points (maintenance or initial), for the operation an
/// order carries them for.
pub fn session_margin_bps(base_bps: u64, margin_mult: u64, reopen_gap_margin: u64) -> (m: u64)
    ensures
        m == session_margin(base_bps, margin_mult, reopen_gap_margin),
        (base_bps * margin_mult) / 1_000_000_000int + (reopen_gap_margin * 10_000int) / 1_000_000_000int
            <= u64::MAX ==> m == (base_bps * margin_mult) / 1_000_000_000int + (reopen_gap_margin
            * 10_000int) / 1_000_000_000int,
        (base_bps * margin_mult) / 1_000_000_000int + (reopen_gap_margin * 10_000int) / 1_000_000_000int
            > u64::MAX ==> m == u64::MAX,
{
    proof {
        let (x, y) = (base_bps as int, margin_mult as int);
        assert(x * y <= 0xffff_ffff_ffff_ffff * 0xffff_ffff_ffff_ffffint) by (nonlinear_arith)
            requires
                0 <= x <= 0xffff_ffff_ffff_ffff,
                0 <= y <= 0xffff_ffff_ffff_ffff,
        ;
        let g = reopen_gap_margin as int;
        assert(g * 10_000 <= 0xffff_ffff_ffff_ffff * 10_000) by (nonlinear_arith)
            requires
                0 <= g <= 0xffff_ffff_ffff_ffff,
        ;
    }
    let product: u128 = (base_bps as u128) * (margin_mult as u128);
    let scaled: u128 = product / (GATE_SCALE as u128);
    let buffer: u128 = (reopen_gap_margin as u128) * (BPS as u128) / (GATE_SCALE as u128);
    proof {
        assert(scaled <= product);
    }
    let total: u128 = scaled + buffer;
    if total > u64::MAX as u128 {
        u64::MAX
    } else {
        total as u64
    }
}

/// The equity engine's liveness input for this tick: no fresh observations means
/// the underlying has been stale for the elapsed time.
pub fn liveness(obs_empty: bool, dt: u64, confidence: u32) -> (l: Liveness)
    ensures
        l == liveness_for(obs_empty, dt, confidence),
        l.confidence == confidence,
        obs_empty ==> l.underlying_staleness_slots == dt as u32,
        !obs_empty ==> l.underlying_staleness_slots == 0,
{
    let staleness: u32 = if obs_empty { dt as u32 } else { 0 };
    Liveness { underlying_staleness_slots: staleness, confidence }
}

/// The elapsed time is the timestamp's advance when it moved forward, and one
/// when it stood still or went back.
pub proof fn lemma_elapsed_time(last_ts: u64, now_ts: u64)
    ensures
        now_ts > last_ts ==> elapsed(last_ts, now_ts) == now_ts - last_ts,
        now_ts <= last_ts ==> elapsed(last_ts, now_ts) == 1,
        elapsed(last_ts, now_ts) >= 1,
{
}

/// The session margin is the base scaled by the multiplier plus the reopen buffer
/// in basis points, each rounded down, while that fits in 64 bits, and the
/// largest 64-bit value beyond.
pub proof fn lemma_session_margin_formula(base_bps: u64, margin_mult: u64, reopen_gap_margin: u64)
    ensures
        ({
            let m = (base_bps * margin_mult) / 1_000_000_000int + (reopen_gap_margin * 10_000int) / 1_000_000_000int;
            &&& m <= u64::MAX ==> session_margin(base_bps, margin_mult, reopen_gap_margin) == m
            &&& m > u64::MAX ==> session_margin(base_bps, margin_mult, reopen_gap_margin) == u64::MAX
        }),
{
}

/// The liveness input always carries the feed's confidence, with or without fresh
/// observations; without them the underlying is stale for the elapsed time
/// (truncated to 32 bits), with them it is not stale at all.
pub proof fn lemma_liveness_carries_confidence(obs_empty: bool, dt: u64, confidence: u32)
    ensures
        liveness_for(obs_empty, dt, confidence).confidence == confidence,
        obs_empty ==> liveness_for(obs_empty, dt, confidence).underlying_staleness_slots == dt as u32,
        !obs_empty ==> liveness_for(obs_empty, dt, confidence).underlying_staleness_slots == 0,
        dt <= u32::MAX ==> obs_empty ==> liveness_for(obs_empty, dt, confidence).underlying_staleness_slots == dt,
{
}

/// Orders submit the request unchanged: an open keeps its two accounts, its
/// signed size and its slot; a liquidation its account and slot; a withdrawal its
/// account, amount and slot. Prices and funding come from the last tick.
pub proof fn lemma_orders_keep_request(
    v: CoreView,
    a: u16,
    b: u16,
    size_q: i128,
    idx: u16,
    amount: u128,
    now_slot: u64,
)
    ensures
        trade_for(v, a, b, size_q, now_slot).a == a,
        trade_for(v, a, b, size_q, now_slot).b == b,
        trade_for(v, a, b, size_q, now_slot).size_q == size_q,
        trade_for(v, a, b, size_q, now_slot).now_slot == now_slot,
        trade_for(v, a, b, size_q, now_slot).oracle_price == v.last_state.inputs.oracle_price,
        trade_for(v, a, b, size_q, now_slot).exec_price == v.last_state.inputs.oracle_price,
        trade_for(v, a, b, size_q, now_slot).funding_e9 == v.last_state.inputs.funding_e9,
        liquidation_for(v, idx, now_slot).idx == idx,
        liquidation_for(v, idx, now_slot).now_slot == now_slot,
        liquidation_for(v, idx, now_slot).oracle_price == v.last_state.inputs.oracle_price,
        liquidation_for(v, idx, now_slot).funding_e9 == v.last_state.inputs.funding_e9,
        withdrawal_for(v, idx, amount, now_slot).idx == idx,
        withdrawal_for(v, idx, amount, now_slot).amount == amount,
        withdrawal_for(v, idx, amount, now_slot).now_slot == now_slot,
        withdrawal_for(v, idx, amount, now_slot).price == v.last_state.inputs.extraction_price,
        withdrawal_for(v, idx, amount, now_slot).funding_e9 == v.last_state.inputs.funding_e9,
{
}

/// A tick decides opens by the session alone: after a tick, a risk-increasing
/// open is accepted exactly when the equity state allows risk increase and the
/// name is admissible.
pub proof fn lemma_session_gates_opens(v: CoreView, tick: FeedTick, eq: EquityRiskState, now_slot: u64)
    ensures
        opens_allowed(after_tick(v, tick, eq, now_slot))
            <==> (eq.risk.allow_risk_increase && eq.admission == Admission::Admissible),
{
}

/// Risk reduction is never gated: whatever the session, after a tick a
/// liquidation is built at the feed's fast price and a withdrawal at its
/// confirmed extraction price, both clamped into the engine's range, with the
/// feed's funding rate.
pub proof fn lemma_reductions_ungated(
    v: CoreView,
    tick: FeedTick,
    eq: EquityRiskState,
    now_slot: u64,
    idx: u16,
    amount: u128,
    at_slot: u64,
)
    ensures
        liquidation_for(after_tick(v, tick, eq, now_slot), idx, at_slot).oracle_price
            == clamp_price(tick.fast_price),
        liquidation_for(after_tick(v, tick, eq, now_slot), idx, at_slot).funding_e9
            == tick.funding_e9,
        withdrawal_for(after_tick(v, tick, eq, now_slot), idx, amount, at_slot).price
            == clamp_price(tick.extraction_price),
        withdrawal_for(after_tick(v, tick, eq, now_slot), idx, amount, at_slot).funding_e9
            == tick.funding_e9,
{
}

/// Every order built after a tick carries that session's margin multiplier and
/// reopen buffer, so the margin it is checked against follows the session.
pub proof fn lemma_orders_carry_session_margin(
    v: CoreView,
    tick: FeedTick,
    eq: EquityRiskState,
    now_slot: u64,
    a: u16,
    b: u16,
    size_q: i128,
    idx: u16,
    amount: u128,
    at_slot: u64,
)
    ensures
        trade_for(after_tick(v, tick, eq, now_slot), a, b, size_q, at_slot).margin_mult == eq.risk.margin_mult,
        trade_for(after_tick(v, tick, eq, now_slot), a, b, size_q, at_slot).reopen_gap_margin
            == eq.risk.reopen_gap_margin,
        liquidation_for(after_tick(v, tick, eq, now_slot), idx, at_slot).margin_mult == eq.risk.margin_mult,
        liquidation_for(after_tick(v, tick, eq, now_slot), idx, at_slot).reopen_gap_margin
            == eq.risk.reopen_gap_margin,
        withdrawal_for(after_tick(v, tick, eq, now_slot), idx, amount, at_slot).margin_mult
            == eq.risk.margin_mult,
        withdrawal_for(after_tick(v, tick, eq, now_slot), idx, amount, at_slot).reopen_gap_margin
            == eq.risk.reopen_gap_margin,
{
}

/// Every order hands the risk engine its own configured admission band
/// `[0, h_max_cap]`, whatever the feed's confidence: the confidence-derived band
/// stays in the composed view and is not used for orders.
pub proof fn lemma_orders_use_configured_band(
    v: CoreView,
    tick: FeedTick,
    eq: EquityRiskState,
    now_slot: u64,
    a: u16,
    b: u16,
    size_q: i128,
    idx: u16,
    amount: u128,
    at_slot: u64,
)
    ensures
        trade_for(after_tick(v, tick, eq, now_slot), a, b, size_q, at_slot).admit_h_min == 0,
        trade_for(after_tick(v, tick, eq, now_slot), a, b, size_q, at_slot).admit_h_max == v.convert_cfg.h_max_cap,
        liquidation_for(after_tick(v, tick, eq, now_slot), idx, at_slot).admit_h_min == 0,
        liquidation_for(after_tick(v, tick, eq, now_slot), idx, at_slot).admit_h_max == v.convert_cfg.h_max_cap,
        withdrawal_for(after_tick(v, tick, eq, now_slot), idx, amount, at_slot).admit_h_min == 0,
        withdrawal_for(after_tick(v, tick, eq, now_slot), idx, amount, at_slot).admit_h_max
            == v.convert_cfg.h_max_cap,
{
}

/// A unit multiplier with no reopen buffer leaves the configured margin as it is,
/// and a larger multiplier or buffer never lowers the requirement.
pub proof fn lemma_session_margin_monotone(base_bps: u64, m1: u64, g1: u64, m2: u64, g2: u64)
    ensures
        session_margin(base_bps, GATE_SCALE, 0) == base_bps,
        m1 <= m2 && g1 <= g2 ==> session_margin(base_bps, m1, g1) <= session_margin(base_bps, m2, g2),
{
    assert((base_bps * (GATE_SCALE as int)) / (GATE_SCALE as int) == base_bps) by (nonlinear_arith);
    assert((0int * (BPS as int)) / (GATE_SCALE as int) == 0);
    if m1 <= m2 && g1 <= g2 {
        assert((base_bps * m1) / 1_000_000_000int <= (base_bps * m2) / 1_000_000_000int) by (nonlinear_arith)
            requires
                m1 <= m2,
                0 <= base_bps,
                0 <= m1,
        ;
        assert((g1 * 10_000int) / 1_000_000_000int <= (g2 * 10_000int) / 1_000_000_000int) by (nonlinear_arith)
            requires
                g1 <= g2,
                0 <= g1,
        ;
    }
}

/// Every price the engine hands to the risk engine lies in its accepted range,
/// before the first tick and after any tick.
pub proof fn lemma_prices_in_range(
    cfg: ConvertCfg,
    init_price: u64,
    init_slot: u64,
    v: CoreView,
    tick: FeedTick,
    eq: EquityRiskState,
    now_slot: u64,
)
    ensures
        1 <= initial_view(cfg, init_price, init_slot).last_state.inputs.oracle_price <= MAX_ORACLE_PRICE,
        1 <= initial_view(cfg, init_price, init_slot).last_state.inputs.extraction_price <= MAX_ORACLE_PRICE,
        1 <= after_tick(v, tick, eq, now_slot).last_state.inputs.oracle_price <= MAX_ORACLE_PRICE,
        1 <= after_tick(v, tick, eq, now_slot).last_state.inputs.extraction_price <= MAX_ORACLE_PRICE,
{
}

/// A tick replaces only the composed view: the adapter configuration, the
/// clock and the reconciliation switch are kept, and the next tick's perp mark
/// is this tick's oracle price.
pub proof fn lemma_tick_keeps_configuration(v: CoreView, tick: FeedTick, eq: EquityRiskState, now_slot: u64)
    ensures
        after_tick(v, tick, eq, now_slot).convert_cfg == v.convert_cfg,
        after_tick(v, tick, eq, now_slot).last_ts == v.last_ts,
        after_tick(v, tick, eq, now_slot).reconcile_enabled == v.reconcile_enabled,
        after_tick(v, tick, eq, now_slot).last_state.inputs.oracle_price
            == clamp_price(tick.fast_price),
{
}

} // verus!
