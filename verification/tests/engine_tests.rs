use percolator_engine::convert::{
    Admission, ConvertCfg, EquityRiskState, FeedTick, MarkSource, RiskControls, CONF,
};
use percolator_engine::engine::{liveness, session_margin_bps, EngineCore};

fn cfg() -> ConvertCfg {
    ConvertCfg { h_max_cap: 100 }
}

fn feed_tick(price: u64) -> FeedTick {
    FeedTick {
        fast_price: price,
        extraction_price: price - 10,
        funding_e9: 7,
        confidence: CONF,
        extraction_gate: CONF,
        vol_mult: 1_000_000_000,
    }
}

fn session(allow: bool, mark: MarkSource) -> EquityRiskState {
    EquityRiskState {
        risk: RiskControls {
            allow_risk_increase: allow,
            margin_mult: if allow { 1_000_000_000 } else { 1_500_000_000 },
            reopen_gap_margin: if allow { 0 } else { 100_000_000 },
            extraction_warmup: 0,
        },
        admission: Admission::Admissible,
        mark,
    }
}

fn ticked(allow: bool) -> EngineCore {
    let mut e = EngineCore::new(cfg(), 50_000, 0);
    let req = e.begin_tick(1);
    assert_eq!(req.dt, 1);
    let mark = if allow { MarkSource::Underlying } else { MarkSource::Proxy };
    e.finish_tick(feed_tick(50_000), &session(allow, mark), 1);
    e
}

#[test]
fn tick_produces_sane_state() {
    let mut e = EngineCore::new(cfg(), 50_000, 0);
    let req = e.begin_tick(1);
    assert_eq!(req.perp_mark, 50_000);
    let st = e.finish_tick(feed_tick(50_010), &session(true, MarkSource::Underlying), 1);
    assert!(st.inputs.oracle_price >= 1);
    assert!(st.gates.allow_open);
    assert_eq!(e.state(), st);
}

#[test]
fn closed_session_gates_opens_in_state() {
    let e = ticked(false);
    assert!(!e.state().gates.allow_open);
}

#[test]
fn open_rejected_when_session_gates_it() {
    let e = ticked(false);
    assert!(e.open_order(1, 0, 1000, 2).is_none());
}

#[test]
fn open_allowed_when_open_session() {
    let e = ticked(true);
    let o = e.open_order(1, 0, 1000, 2).unwrap();
    assert_eq!(o.a, 1);
    assert_eq!(o.b, 0);
    assert_eq!(o.size_q, 1000);
    assert_eq!(o.oracle_price, 50_000);
    assert_eq!(o.exec_price, 50_000);
    assert_eq!(o.now_slot, 2);
    assert_eq!(o.funding_e9, 7);
    assert_eq!(o.admit_h_min, 0);
    assert_eq!(o.admit_h_max, 100);
}

#[test]
fn liquidate_runs_even_when_opens_gated() {
    let e = ticked(false);
    let l = e.liquidation_order(1, 2);
    assert_eq!(l.idx, 1);
    assert_eq!(l.oracle_price, 50_000);
    assert_eq!(l.now_slot, 2);
}

#[test]
fn withdrawal_uses_extraction_price() {
    let e = ticked(false);
    let w = e.withdrawal_order(1, 500, 3);
    assert_eq!(w.price, 49_990);
    assert_eq!(w.amount, 500);
    assert_eq!(w.funding_e9, 7);
}

#[test]
fn fresh_engine_state_and_defaults() {
    let e = EngineCore::new(cfg(), 50_000, 9);
    let st = e.state();
    assert_eq!(st.now_slot, 9);
    assert_eq!(st.inputs.oracle_price, 50_000);
    assert_eq!(st.inputs.admit_h_max, 0);
    assert!(st.gates.allow_open);
    assert_eq!(st.gates.margin_mult, 1_000_000_000);
    assert!(e.reconcile_enabled());
}

#[test]
fn reconcile_switch_toggles() {
    let mut e = EngineCore::new(cfg(), 50_000, 0);
    e.set_reconcile_enabled(false);
    assert!(!e.reconcile_enabled());
    e.set_reconcile_enabled(true);
    assert!(e.reconcile_enabled());
}

#[test]
fn elapsed_time_is_floored_at_one() {
    let mut e = EngineCore::new(cfg(), 50_000, 0);
    assert_eq!(e.begin_tick(10).dt, 10);
    assert_eq!(e.begin_tick(10).dt, 1);
    assert_eq!(e.begin_tick(4).dt, 1);
    assert_eq!(e.begin_tick(7).dt, 3);
}

#[test]
fn perp_mark_follows_last_oracle_price() {
    let mut e = EngineCore::new(cfg(), 50_000, 0);
    e.begin_tick(1);
    e.finish_tick(feed_tick(51_000), &session(true, MarkSource::Underlying), 1);
    assert_eq!(e.begin_tick(2).perp_mark, 51_000);
}

#[test]
fn staleness_only_without_observations() {
    let l = liveness(true, 5, 400_000);
    assert_eq!(l.underlying_staleness_slots, 5);
    assert_eq!(l.confidence, 400_000);
    assert_eq!(liveness(false, 5, 400_000).underlying_staleness_slots, 0);
    assert_eq!(liveness(true, (1u64 << 32) + 3, 1).underlying_staleness_slots, 3);
}

#[test]
fn orders_carry_the_session_margin() {
    let open = ticked(true);
    let o = open.open_order(1, 0, 1000, 2).unwrap();
    assert_eq!(o.margin_mult, 1_000_000_000);
    assert_eq!(o.reopen_gap_margin, 0);
    let closed = ticked(false);
    let l = closed.liquidation_order(1, 2);
    assert_eq!(l.margin_mult, 1_500_000_000);
    assert_eq!(l.reopen_gap_margin, 100_000_000);
    let w = closed.withdrawal_order(1, 10, 2);
    assert_eq!(w.margin_mult, 1_500_000_000);
    assert_eq!(w.reopen_gap_margin, 100_000_000);
}

#[test]
fn session_margin_folds_multiplier_and_buffer() {
    assert_eq!(session_margin_bps(500, 1_000_000_000, 0), 500);
    assert_eq!(session_margin_bps(500, 1_500_000_000, 0), 750);
    assert_eq!(session_margin_bps(500, 1_500_000_000, 100_000_000), 1_750);
    assert_eq!(session_margin_bps(1000, 2_000_000_000, 200_000_000), 4_000);
    assert_eq!(session_margin_bps(u64::MAX, u64::MAX, u64::MAX), u64::MAX);
}

#[test]
fn orders_use_configured_band_whatever_confidence() {
    let mut e = EngineCore::new(cfg(), 50_000, 0);
    e.begin_tick(1);
    let mut t = feed_tick(50_000);
    t.extraction_gate = CONF / 4;
    let st = e.finish_tick(t, &session(true, MarkSource::Underlying), 1);
    assert_eq!(st.inputs.admit_h_max, 75);
    let o = e.open_order(1, 0, 10, 2).unwrap();
    assert_eq!((o.admit_h_min, o.admit_h_max), (0, 100));
    let l = e.liquidation_order(1, 2);
    assert_eq!((l.admit_h_min, l.admit_h_max), (0, 100));
    let w = e.withdrawal_order(1, 5, 2);
    assert_eq!((w.admit_h_min, w.admit_h_max), (0, 100));
}
