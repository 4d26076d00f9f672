use percolator_engine::convert::EngineGates;
use percolator_engine::invariants::{check, InvariantSnapshot, Violation};

fn open_gates() -> EngineGates {
    EngineGates {
        allow_open: true,
        margin_mult: 1_000_000_000,
        reopen_gap_margin: 0,
        extraction_warmup: 0,
        mark_underlying: true,
    }
}

fn closed_gates(reopen_gap_margin: u64, extraction_warmup: u32) -> EngineGates {
    EngineGates {
        allow_open: false,
        margin_mult: 1_500_000_000,
        reopen_gap_margin,
        extraction_warmup,
        mark_underlying: false,
    }
}

fn snap(gates: EngineGates, pool_balance: u128, fund_balance: u128) -> InvariantSnapshot {
    InvariantSnapshot { pool_accounting_ok: true, gates, pool_balance, fund_balance }
}

#[test]
fn holds_in_normal_operation() {
    assert_eq!(check(&snap(open_gates(), 0, 0)), Ok(()));
}

#[test]
fn normal_closed_session_holds_buffer() {
    assert_eq!(check(&snap(closed_gates(100_000_000, 0), 0, 0)), Ok(()));
}

#[test]
fn catches_unprotected_closed_session() {
    assert_eq!(check(&snap(closed_gates(0, 0), 0, 0)), Err(Violation::ReopenBufferMissing));
}

#[test]
fn solvency_holds_when_fund_backs_pool() {
    assert_eq!(check(&snap(open_gates(), 5_000, 5_000)), Ok(()));
    assert_eq!(check(&snap(open_gates(), 5_000, 1_000_000)), Ok(()));
}

#[test]
fn catches_insolvency_when_fund_below_pool() {
    let pool = 5_000u128;
    assert_eq!(check(&snap(open_gates(), pool, pool - 1)), Err(Violation::Insolvency));
}

#[test]
fn warmup_alone_counts_as_protection() {
    assert_eq!(check(&snap(closed_gates(0, 500_000), 0, 0)), Ok(()));
}

#[test]
fn gated_but_underlying_marked_needs_no_buffer() {
    let mut g = closed_gates(0, 0);
    g.mark_underlying = true;
    assert_eq!(check(&snap(g, 0, 0)), Ok(()));
}

#[test]
fn broken_pool_accounting_reported_first() {
    let s = InvariantSnapshot {
        pool_accounting_ok: false,
        gates: closed_gates(0, 0),
        pool_balance: 10,
        fund_balance: 0,
    };
    assert_eq!(check(&s), Err(Violation::PoolAccounting));
}

#[test]
fn missing_buffer_reported_before_insolvency() {
    assert_eq!(check(&snap(closed_gates(0, 0), 10, 0)), Err(Violation::ReopenBufferMissing));
}
