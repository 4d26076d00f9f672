use percolator_engine::convert::{
    equity_to_engine, feed_to_engine, Admission, ConvertCfg, EquityRiskState, FeedTick,
    MarkSource, RiskControls, CONF, MAX_ORACLE_PRICE,
};

fn cfg() -> ConvertCfg {
    ConvertCfg { h_max_cap: 100 }
}

fn a_tick(gate: u32) -> FeedTick {
    FeedTick {
        fast_price: 50_000,
        extraction_price: 49_900,
        funding_e9: 123,
        confidence: gate,
        extraction_gate: gate,
        vol_mult: 1_000_000_000,
    }
}

fn open_session_state() -> EquityRiskState {
    EquityRiskState {
        risk: RiskControls {
            allow_risk_increase: true,
            margin_mult: 1_000_000_000,
            reopen_gap_margin: 0,
            extraction_warmup: 0,
        },
        admission: Admission::Admissible,
        mark: MarkSource::Underlying,
    }
}

fn closed_session_state() -> EquityRiskState {
    EquityRiskState {
        risk: RiskControls {
            allow_risk_increase: false,
            margin_mult: 1_500_000_000,
            reopen_gap_margin: 100_000_000,
            extraction_warmup: 0,
        },
        admission: Admission::Admissible,
        mark: MarkSource::Proxy,
    }
}

#[test]
fn price_clamped_into_engine_range() {
    let mut t = a_tick(CONF);
    t.fast_price = MAX_ORACLE_PRICE + 5;
    let e = feed_to_engine(&t, &cfg());
    assert_eq!(e.oracle_price, MAX_ORACLE_PRICE);
    assert!(e.oracle_price >= 1);
}

#[test]
fn funding_passthrough_is_identity() {
    let e = feed_to_engine(&a_tick(CONF), &cfg());
    assert_eq!(e.funding_e9, 123);
}

#[test]
fn low_confidence_widens_warmup_band() {
    let hi = feed_to_engine(&a_tick(CONF), &cfg()).admit_h_max;
    let lo = feed_to_engine(&a_tick(CONF / 4), &cfg()).admit_h_max;
    assert!(lo > hi);
    assert_eq!(hi, 0);
}

#[test]
fn equity_gates_open_when_admissible_and_allowed() {
    let g = equity_to_engine(&open_session_state());
    assert!(g.allow_open);
    assert!(g.mark_underlying);
}

#[test]
fn equity_gates_closed_blocks_open() {
    let g = equity_to_engine(&closed_session_state());
    assert!(!g.allow_open);
    assert!(g.reopen_gap_margin > 0);
}

#[test]
fn zero_price_clamps_to_one() {
    let mut t = a_tick(CONF);
    t.fast_price = 0;
    t.extraction_price = 0;
    let e = feed_to_engine(&t, &cfg());
    assert_eq!(e.oracle_price, 1);
    assert_eq!(e.extraction_price, 1);
}

#[test]
fn in_range_prices_pass_through() {
    let e = feed_to_engine(&a_tick(CONF), &cfg());
    assert_eq!(e.oracle_price, 50_000);
    assert_eq!(e.extraction_price, 49_900);
    assert_eq!(e.admit_h_min, 0);
}

#[test]
fn warmup_band_is_proportional_to_missing_confidence() {
    assert_eq!(feed_to_engine(&a_tick(CONF / 4), &cfg()).admit_h_max, 75);
    assert_eq!(feed_to_engine(&a_tick(CONF / 2), &cfg()).admit_h_max, 50);
    assert_eq!(feed_to_engine(&a_tick(0), &cfg()).admit_h_max, 100);
    // The shrink of the band rounds down: 100 * 333_333 / 1e6 = 33.
    assert_eq!(feed_to_engine(&a_tick(333_333), &cfg()).admit_h_max, 67);
}

#[test]
fn gate_above_full_confidence_counts_as_full() {
    assert_eq!(feed_to_engine(&a_tick(CONF * 3), &cfg()).admit_h_max, 0);
}

#[test]
fn non_admissible_name_blocks_open() {
    let mut st = open_session_state();
    st.admission = Admission::NotAdmissible;
    let g = equity_to_engine(&st);
    assert!(!g.allow_open);
    assert!(g.mark_underlying);
}

#[test]
fn gates_carry_margin_and_warmup() {
    let mut st = closed_session_state();
    st.risk.extraction_warmup = 500_000;
    st.mark = MarkSource::Frozen;
    let g = equity_to_engine(&st);
    assert_eq!(g.margin_mult, 1_500_000_000);
    assert_eq!(g.reopen_gap_margin, 100_000_000);
    assert_eq!(g.extraction_warmup, 500_000);
    assert!(!g.mark_underlying);
}
