//! Adapters from the price feed's tick and the equity session state to the risk
//! engine's price/funding/admission inputs and its risk-increase gates.

use vstd::prelude::*;

verus! {

/// Engine price scale ceiling (the risk engine's largest accepted oracle price).
pub const MAX_ORACLE_PRICE: u64 = 1_000_000_000_000;

/// Confidence full scale, shared by the feed and the equity engine.
pub const CONF: u32 = 1_000_000;

/// One output of the price feed, as plain values.
#[derive(Clone, Copy, PartialEq, Eq, Debug)]
pub struct FeedTick {
    /// Fast price: drives liquidation and the mark.
    pub fast_price: u64,
    /// Persistence-confirmed price: drives withdrawal and realisation.
    pub extraction_price: u64,
    /// Funding rate, in units of 1e-9 per slot.
    pub funding_e9: i128,
    /// Overall confidence, on the `CONF` scale.
    pub confidence: u32,
    /// Confidence that gates extraction, on the `CONF` scale.
    pub extraction_gate: u32,
    /// Volatility multiplier, on a 1e9 scale.
    pub vol_mult: u64,
}

/// Whether the equity engine accepts the listed name.
#[derive(Clone, Copy, PartialEq, Eq, Debug)]
pub enum Admission {
    /// The name can be priced safely through closed periods.
    Admissible,
    /// The name is refused: no safe overnight pricing.
    NotAdmissible,
}

/// Which price the equity engine marks positions to.
#[derive(Clone, Copy, PartialEq, Eq, Debug)]
pub enum MarkSource {
    /// The underlying market's own price (the session is live).
    Underlying,
    /// A proxy instrument's price (the underlying is closed or halted).
    Proxy,
    /// The last price, frozen (no usable proxy).
    Frozen,
}

/// The risk controls that the equity engine derives for the current session.
#[derive(Clone, Copy, PartialEq, Eq, Debug)]
pub struct RiskControls {
    /// Whether risk-increasing orders are allowed in this session.
    pub allow_risk_increase: bool,
    /// Margin multiplier, on a 1e9 scale.
    pub margin_mult: u64,
    /// Extra margin held against a gap at reopen, on a 1e9 scale.
    pub reopen_gap_margin: u64,
    /// Extraction warmup, on the `CONF` scale.
    pub extraction_warmup: u32,
}

/// The equity engine's per-session risk state, as plain values.
#[derive(Clone, Copy, PartialEq, Eq, Debug)]
pub struct EquityRiskState {
    pub risk: RiskControls,
    pub admission: Admission,
    pub mark: MarkSource,
}

/// Configuration of the feed-to-engine adapter.
#[derive(Clone, Copy, Debug)]
pub struct ConvertCfg {
    /// Ceiling of the warmup band (the engine's configured `h_max`).
    pub h_max_cap: u64,
}

/// Price, funding and admission inputs handed to the risk engine.
#[derive(Clone, Copy, PartialEq, Eq, Debug)]
pub struct EngineInputs {
    /// Fast price clamped into the engine's range: liquidation and mark.
    pub oracle_price: u64,
    /// Confirmed price clamped into the engine's range: withdraw and realise.
    pub extraction_price: u64,
    pub funding_e9: i128,
    pub admit_h_min: u64,
    /// Upper end of the warmup band: lower confidence, larger warmup.
    pub admit_h_max: u64,
}

/// Risk-increase gates and margin inputs derived from the equity session.
#[derive(Clone, Copy, PartialEq, Eq, Debug)]
pub struct EngineGates {
    pub allow_open: bool,
    pub margin_mult: u64,
    pub reopen_gap_margin: u64,
    pub extraction_warmup: u32,
    /// True when marking to the underlying; false for a proxy or frozen mark.
    pub mark_underlying: bool,
}

/// A price clamped into the engine's accepted range `[1, MAX_ORACLE_PRICE]`.
pub open spec fn clamp_price(p: u64) -> u64 {
    if p > MAX_ORACLE_PRICE {
        MAX_ORACLE_PRICE
    } else if p < 1 {
        1
    } else {
        p
    }
}

/// The extraction gate capped at full confidence.
pub open spec fn capped_gate(gate: u32) -> int {
    if gate > CONF { CONF as int } else { gate as int }
}

/// The upper end of the warmup band for a given extraction gate: the full
/// ceiling at zero confidence, shrinking in proportion to confidence (rounding
/// the shrink down), zero at full confidence.
pub open spec fn warmup_band(h_max_cap: u64, gate: u32) -> int {
    h_max_cap - (h_max_cap * capped_gate(gate)) / (CONF as int)
}

/// The adapter can compute the band without overflow.
pub open spec fn band_fits(cfg: ConvertCfg, gate: u32) -> bool {
    cfg.h_max_cap * capped_gate(gate) <= u64::MAX
}

/// What `feed_to_engine` returns.
pub open spec fn feed_inputs(tick: FeedTick, cfg: ConvertCfg) -> EngineInputs {
    EngineInputs {
        oracle_price: clamp_price(tick.fast_price),
        extraction_price: clamp_price(tick.extraction_price),
        funding_e9: tick.funding_e9,
        admit_h_min: 0,
        admit_h_max: warmup_band(cfg.h_max_cap, tick.extraction_gate) as u64,
    }
}

/// What `equity_to_engine` returns.
pub open spec fn equity_gates(st: EquityRiskState) -> EngineGates {
    EngineGates {
        allow_open: st.risk.allow_risk_increase && st.admission == Admission::Admissible,
        margin_mult: st.risk.margin_mult,
        reopen_gap_margin: st.risk.reopen_gap_margin,
        extraction_warmup: st.risk.extraction_warmup,
        mark_underlying: st.mark == MarkSource::Underlying,
    }
}

proof fn lemma_band_in_range(h: u64, g: int)
    requires
        0 <= g <= CONF as int,
    ensures
        0 <= (h * g) / (CONF as int) <= h,
{
    assert(0 <= (h * g) / (CONF as int) <= h) by (nonlinear_arith)
        requires
            0 <= g <= 1_000_000,
            0 <= h,
    ;
}

/// Map a feed tick to the engine's price/funding/admission inputs. Prices are
/// clamped into the engine's oracle range; lower extraction confidence widens the
/// warmup band so fresh PnL is admitted more slowly on a less-trusted price.
pub fn feed_to_engine(tick: &FeedTick, cfg: &ConvertCfg) -> (inputs: EngineInputs)
    requires
        band_fits(*cfg, tick.extraction_gate),
    ensures
        inputs == feed_inputs(*tick, *cfg),
        1 <= inputs.oracle_price <= MAX_ORACLE_PRICE,
        1 <= inputs.extraction_price <= MAX_ORACLE_PRICE,
        inputs.admit_h_min <= inputs.admit_h_max <= cfg.h_max_cap,
        1 <= tick.fast_price <= MAX_ORACLE_PRICE ==> inputs.oracle_price == tick.fast_price,
        tick.fast_price > MAX_ORACLE_PRICE ==> inputs.oracle_price == MAX_ORACLE_PRICE,
        tick.fast_price == 0 ==> inputs.oracle_price == 1,
        1 <= tick.extraction_price <= MAX_ORACLE_PRICE ==> inputs.extraction_price == tick.extraction_price,
        tick.extraction_price > MAX_ORACLE_PRICE ==> inputs.extraction_price == MAX_ORACLE_PRICE,
        tick.extraction_price == 0 ==> inputs.extraction_price == 1,
        inputs.funding_e9 == tick.funding_e9,
        inputs.admit_h_min == 0,
        tick.extraction_gate <= CONF ==> inputs.admit_h_max
            == cfg.h_max_cap - (cfg.h_max_cap * tick.extraction_gate) / (CONF as int),
        tick.extraction_gate > CONF ==> inputs.admit_h_max == 0,
{
    let gate: u64 = tick.extraction_gate.min(CONF) as u64;
    proof {
        lemma_band_in_range(cfg.h_max_cap, capped_gate(tick.extraction_gate));
        lemma_band_at_extremes(*cfg, *tick);
    }
    let admit_h_max: u64 = cfg.h_max_cap - cfg.h_max_cap * gate / (CONF as u64);
    EngineInputs {
        oracle_price: tick.fast_price.min(MAX_ORACLE_PRICE).max(1),
        extraction_price: tick.extraction_price.min(MAX_ORACLE_PRICE).max(1),
        funding_e9: tick.funding_e9,
        admit_h_min: 0,
        admit_h_max,
    }
}

/// Map an equity risk state to the engine gates. `allow_open` requires both the
/// session's risk-increase flag and an admissible name.
pub fn equity_to_engine(st: &EquityRiskState) -> (gates: EngineGates)
    ensures
        gates == equity_gates(*st),
        gates.allow_open <==> (st.risk.allow_risk_increase && st.admission == Admission::Admissible),
        gates.margin_mult == st.risk.margin_mult,
        gates.reopen_gap_margin == st.risk.reopen_gap_margin,
        gates.extraction_warmup == st.risk.extraction_warmup,
        gates.mark_underlying <==> st.mark == MarkSource::Underlying,
        st.mark == MarkSource::Proxy ==> !gates.mark_underlying,
        st.mark == MarkSource::Frozen ==> !gates.mark_underlying,
{
    let admissible = match st.admission {
        Admission::Admissible => true,
        Admission::NotAdmissible => false,
    };
    let mark_underlying = match st.mark {
        MarkSource::Underlying => true,
        MarkSource::Proxy => false,
        MarkSource::Frozen => false,
    };
    EngineGates {
        allow_open: st.risk.allow_risk_increase && admissible,
        margin_mult: st.risk.margin_mult,
        reopen_gap_margin: st.risk.reopen_gap_margin,
        extraction_warmup: st.risk.extraction_warmup,
        mark_underlying,
    }
}

/// The gates copy the session's margin multiplier, reopen buffer and extraction
/// warmup; they allow opens exactly when the session allows risk increase and the
/// name is admissible; and they mark to the underlying exactly when the equity
/// engine marks to the underlying, never for a proxy or frozen mark.
pub proof fn lemma_gates_follow_session(st: EquityRiskState)
    ensures
        equity_gates(st).allow_open <==> (st.risk.allow_risk_increase && st.admission == Admission::Admissible),
        !st.risk.allow_risk_increase ==> !equity_gates(st).allow_open,
        st.admission == Admission::NotAdmissible ==> !equity_gates(st).allow_open,
        equity_gates(st).margin_mult == st.risk.margin_mult,
        equity_gates(st).reopen_gap_margin == st.risk.reopen_gap_margin,
        equity_gates(st).extraction_warmup == st.risk.extraction_warmup,
        equity_gates(st).mark_underlying <==> st.mark == MarkSource::Underlying,
        st.mark == MarkSource::Proxy ==> !equity_gates(st).mark_underlying,
        st.mark == MarkSource::Frozen ==> !equity_gates(st).mark_underlying,
{
}

/// Prices inside the engine's range pass through unchanged, prices above it are
/// cut to its ceiling and a zero price is raised to one; funding passes through
/// unchanged; the warmup band starts at zero and, for a gate at most full
/// confidence, is the ceiling less the ceiling's confident share, rounded down.
pub proof fn lemma_feed_inputs_follow_tick(tick: FeedTick, cfg: ConvertCfg)
    ensures
        1 <= tick.fast_price <= MAX_ORACLE_PRICE ==> feed_inputs(tick, cfg).oracle_price == tick.fast_price,
        tick.fast_price > MAX_ORACLE_PRICE ==> feed_inputs(tick, cfg).oracle_price == MAX_ORACLE_PRICE,
        tick.fast_price == 0 ==> feed_inputs(tick, cfg).oracle_price == 1,
        1 <= tick.extraction_price <= MAX_ORACLE_PRICE
            ==> feed_inputs(tick, cfg).extraction_price == tick.extraction_price,
        tick.extraction_price > MAX_ORACLE_PRICE ==> feed_inputs(tick, cfg).extraction_price == MAX_ORACLE_PRICE,
        tick.extraction_price == 0 ==> feed_inputs(tick, cfg).extraction_price == 1,
        feed_inputs(tick, cfg).funding_e9 == tick.funding_e9,
        feed_inputs(tick, cfg).admit_h_min == 0,
        tick.extraction_gate <= CONF ==> feed_inputs(tick, cfg).admit_h_max
            == cfg.h_max_cap - (cfg.h_max_cap * tick.extraction_gate) / (CONF as int),
{
    lemma_band_in_range(cfg.h_max_cap, capped_gate(tick.extraction_gate));
}

/// Lower extraction confidence never narrows the warmup band: for two ticks that
/// differ only in their extraction gate, the less confident one gets a band at
/// least as wide.
pub proof fn lemma_lower_confidence_widens_band(cfg: ConvertCfg, lo: FeedTick, hi: FeedTick)
    requires
        lo.extraction_gate <= hi.extraction_gate,
    ensures
        feed_inputs(lo, cfg).admit_h_max >= feed_inputs(hi, cfg).admit_h_max,
{
    let h = cfg.h_max_cap;
    let g1 = capped_gate(lo.extraction_gate);
    let g2 = capped_gate(hi.extraction_gate);
    lemma_band_in_range(h, g1);
    lemma_band_in_range(h, g2);
    assert((h * g1) / (CONF as int) <= (h * g2) / (CONF as int)) by (nonlinear_arith)
        requires
            0 <= g1 <= g2,
            0 <= h,
    ;
}

/// At full confidence the warmup band is empty, and at zero confidence it is the
/// whole configured ceiling.
pub proof fn lemma_band_at_extremes(cfg: ConvertCfg, tick: FeedTick)
    ensures
        tick.extraction_gate >= CONF ==> feed_inputs(tick, cfg).admit_h_max == 0,
        tick.extraction_gate == 0 ==> feed_inputs(tick, cfg).admit_h_max == cfg.h_max_cap,
{
    let h = cfg.h_max_cap;
    assert((h * (CONF as int)) / (CONF as int) == h) by (nonlinear_arith)
        requires
            0 <= h,
    ;
    assert(h * 0 == 0);
}

} // verus!
