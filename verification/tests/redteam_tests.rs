use percolator_engine::convert::EngineGates;
use percolator_engine::engine::CalendarState;
use percolator_engine::invariants::{InvariantSnapshot, Violation};
use percolator_engine::redteam::{
    plan_action, random_action, replay_breaks, search, shrink, trial_actions, venue_observations,
    Action, CalendarFlag, EngineOp, Lcg, Outcome,
};

/// A stand-in engine: gates follow the calendar of the last tick; a misconfigured
/// one holds no reopen buffer in closed or halted sessions.
#[derive(Clone, Copy, Debug)]
struct ModelEngine {
    buffer: u64,
    gates: EngineGates,
    ops: usize,
}

fn model(buffer: u64) -> ModelEngine {
    ModelEngine {
        buffer,
        gates: EngineGates {
            allow_open: true,
            margin_mult: 1_000_000_000,
            reopen_gap_margin: 0,
            extraction_warmup: 0,
            mark_underlying: true,
        },
        ops: 0,
    }
}

fn run_model(mut e: ModelEngine, op: EngineOp) -> (ModelEngine, InvariantSnapshot) {
    e.ops += 1;
    if let EngineOp::Tick { cal, .. } = op {
        let open = cal == CalendarState::Open;
        e.gates = EngineGates {
            allow_open: open,
            margin_mult: 1_000_000_000,
            reopen_gap_margin: if open { 0 } else { e.buffer },
            extraction_warmup: 0,
            mark_underlying: open,
        };
    }
    let snap = InvariantSnapshot {
        pool_accounting_ok: true,
        gates: e.gates,
        pool_balance: 0,
        fund_balance: 0,
    };
    (e, snap)
}

#[test]
fn lcg_sequence_is_reproducible() {
    let mut r = Lcg(0);
    assert_eq!(r.next_u64(), 1442695040888963407);
    assert_eq!(r.next_u64(), 1876011003808476466);
    assert_eq!(r.next_u64(), 11166244414315200793);
    assert_eq!(r.0, 11166244414315200793);
}

#[test]
fn random_actions_from_zero_state() {
    let mut r = Lcg(0);
    let acts: Vec<Action> = (0..6).map(|_| random_action(&mut r)).collect();
    assert_eq!(
        acts,
        vec![
            Action::Cross { cal: CalendarFlag::Closed },
            Action::Open { a: 1, b: 0, size: 4040 },
            Action::Open { a: 1, b: 0, size: 3970 },
            Action::Liquidate { idx: 1 },
            Action::Liquidate { idx: 1 },
            Action::AdvanceSlots { n: 5 },
        ]
    );
}

#[test]
fn trial_seed_wraps() {
    let from_trial = trial_actions(u64::MAX, 0, 6);
    let mut r = Lcg(0);
    let direct: Vec<Action> = (0..6).map(|_| random_action(&mut r)).collect();
    assert_eq!(from_trial, direct);
    assert_eq!(trial_actions(3, 2, 40).len(), 40);
    assert_eq!(trial_actions(3, 2, 40), trial_actions(5, 0, 40));
}

#[test]
fn calendar_flags_map_to_sessions() {
    assert_eq!(CalendarFlag::Open.to_state(), CalendarState::Open);
    assert_eq!(CalendarFlag::Closed.to_state(), CalendarState::Closed);
    assert_eq!(CalendarFlag::Halted.to_state(), CalendarState::Halted);
}

#[test]
fn plan_moves_clock_only_on_ticks() {
    let (op, c) = plan_action(Action::OracleMove { price: 41_000 }, (5, 7));
    assert_eq!(c, (6, 8));
    assert_eq!(
        op,
        EngineOp::Tick { fresh_price: Some(41_000), cal: CalendarState::Open, now_slot: 6, now_ts: 8 }
    );
    let (op, c) = plan_action(Action::AdvanceSlots { n: 0 }, (5, 5));
    assert_eq!(c, (6, 6));
    assert_eq!(op, EngineOp::Tick { fresh_price: None, cal: CalendarState::Open, now_slot: 6, now_ts: 6 });
    let (_, c) = plan_action(Action::AdvanceSlots { n: 9 }, (5, 5));
    assert_eq!(c, (14, 14));
    let (op, c) = plan_action(Action::Cross { cal: CalendarFlag::Halted }, (1, 1));
    assert_eq!(c, (2, 2));
    assert_eq!(op, EngineOp::Tick { fresh_price: None, cal: CalendarState::Halted, now_slot: 2, now_ts: 2 });
    let (op, c) = plan_action(Action::Open { a: 1, b: 0, size: 300 }, (4, 4));
    assert_eq!(c, (4, 4));
    assert_eq!(op, EngineOp::Open { a: 1, b: 0, size_q: 300, now_slot: 4 });
    let (op, c) = plan_action(Action::Liquidate { idx: 1 }, (4, 4));
    assert_eq!(c, (4, 4));
    assert_eq!(op, EngineOp::Liquidate { idx: 1, now_slot: 4 });
}

#[test]
fn oracle_move_reports_on_three_venues() {
    let obs = venue_observations(Some(42_000));
    assert_eq!(obs.len(), 3);
    for (k, o) in obs.iter().enumerate() {
        assert_eq!(o.venue, k);
        assert_eq!(o.price, 42_000);
        assert_eq!(o.depth, 100);
    }
    assert!(venue_observations(None).is_empty());
}

#[test]
fn replay_stops_at_first_violation() {
    let fresh = || model(0);
    let seq = vec![
        Action::Open { a: 1, b: 0, size: 100 },
        Action::Cross { cal: CalendarFlag::Closed },
        Action::Cross { cal: CalendarFlag::Open },
    ];
    assert_eq!(replay_breaks(&fresh, &run_model, &seq), Some(Violation::ReopenBufferMissing));
    let clean = vec![Action::Open { a: 1, b: 0, size: 100 }, Action::OracleMove { price: 50_000 }];
    assert_eq!(replay_breaks(&fresh, &run_model, &clean), None);
    let sound = || model(100_000_000);
    assert_eq!(replay_breaks(&sound, &run_model, &seq), None);
}

#[test]
fn shrink_keeps_only_the_breaking_crossing() {
    let fresh = || model(0);
    let seq = vec![
        Action::Open { a: 1, b: 0, size: 100 },
        Action::AdvanceSlots { n: 3 },
        Action::Cross { cal: CalendarFlag::Halted },
        Action::Liquidate { idx: 1 },
    ];
    let out = shrink(&fresh, &run_model, &seq, Violation::ReopenBufferMissing);
    assert_eq!(out, vec![Action::Cross { cal: CalendarFlag::Halted }]);
}

#[test]
fn search_reports_no_break_on_sound_model() {
    let fresh = || model(100_000_000);
    match search(&fresh, &run_model, 42, 30, 40) {
        Outcome::NoBreak { trials } => assert_eq!(trials, 30),
        Outcome::Found { .. } => panic!("unexpected break"),
    }
}

#[test]
fn search_finds_and_shrinks_planted_break() {
    let fresh = || model(0);
    match search(&fresh, &run_model, 7, 50, 40) {
        Outcome::Found { seq, violation } => {
            assert_eq!(violation, Violation::ReopenBufferMissing);
            assert_eq!(seq.len(), 1);
            assert!(matches!(
                seq[0],
                Action::Cross { cal: CalendarFlag::Closed } | Action::Cross { cal: CalendarFlag::Halted }
            ));
        }
        Outcome::NoBreak { .. } => panic!("planted break not found"),
    }
}

/// A stand-in engine that breaks once two closed sessions have been crossed.
fn run_counting(mut e: ModelEngine, op: EngineOp) -> (ModelEngine, InvariantSnapshot) {
    if let EngineOp::Tick { cal: CalendarState::Closed, .. } = op {
        e.ops += 1;
    }
    let snap = InvariantSnapshot {
        pool_accounting_ok: e.ops < 2,
        gates: e.gates,
        pool_balance: 0,
        fund_balance: 0,
    };
    (e, snap)
}

#[test]
fn shrunk_sequence_is_minimal() {
    let fresh = || model(0);
    let seq = vec![
        Action::Cross { cal: CalendarFlag::Closed },
        Action::Open { a: 1, b: 0, size: 100 },
        Action::Cross { cal: CalendarFlag::Halted },
        Action::Cross { cal: CalendarFlag::Closed },
        Action::Liquidate { idx: 1 },
        Action::Cross { cal: CalendarFlag::Closed },
    ];
    assert_eq!(replay_breaks(&fresh, &run_counting, &seq), Some(Violation::PoolAccounting));
    let out = shrink(&fresh, &run_counting, &seq, Violation::PoolAccounting);
    assert_eq!(
        out,
        vec![Action::Cross { cal: CalendarFlag::Closed }, Action::Cross { cal: CalendarFlag::Closed }]
    );
    for k in 0..out.len() {
        let mut fewer = out.clone();
        fewer.remove(k);
        assert_ne!(replay_breaks(&fresh, &run_counting, &fewer), Some(Violation::PoolAccounting));
    }
}

#[test]
fn equal_searches_give_equal_outcomes() {
    let fresh = || model(0);
    let a = search(&fresh, &run_model, 11, 20, 30);
    let b = search(&fresh, &run_model, 11, 20, 30);
    match (a, b) {
        (Outcome::Found { seq: s1, violation: v1 }, Outcome::Found { seq: s2, violation: v2 }) => {
            assert_eq!(s1, s2);
            assert_eq!(v1, v2);
        }
        _ => panic!("both searches should find the planted break"),
    }
}
