//! The cross-component invariant contract. `check` reports a `Violation` as data,
//! never as a panic; these are the properties the adversarial search tries to
//! break.

use vstd::prelude::*;
use crate::convert::EngineGates;

verus! {

/// A breach of the invariant contract.
#[derive(Clone, Copy, PartialEq, Eq, Structural, Debug)]
pub enum Violation {
    /// The premium pool's own accounting identity broke (balance plus payouts no
    /// longer equal collections, or payouts exceed collections).
    PoolAccounting,
    /// A session that gates opens and is not marked to the underlying holds no
    /// gap protection at all: no reopen buffer and no extraction warmup.
    ReopenBufferMissing,
    /// The pool's recorded premium claim exceeds the insurance fund balance
    /// that backs it.
    Insolvency,
}

/// What the contract reads of the composed engine at one moment.
#[derive(Clone, Copy, PartialEq, Eq, Debug)]
pub struct InvariantSnapshot {
    /// Whether the premium pool's accounting identity holds.
    pub pool_accounting_ok: bool,
    /// The gates of the last tick.
    pub gates: EngineGates,
    /// The premium pool's balance.
    pub pool_balance: u128,
    /// The insurance fund's balance.
    pub fund_balance: u128,
}

/// A gated session marked to a proxy or frozen price with neither a reopen buffer
/// nor an extraction warmup.
pub open spec fn unprotected_gated_session(g: EngineGates) -> bool {
    &&& !g.allow_open
    &&& !g.mark_underlying
    &&& g.reopen_gap_margin == 0
    &&& g.extraction_warmup == 0
}

/// The result of the contract: the first broken property, in the order pool
/// accounting, gap protection, solvency.
pub open spec fn contract_result(s: InvariantSnapshot) -> Result<(), Violation> {
    if !s.pool_accounting_ok {
        Err(Violation::PoolAccounting)
    } else if unprotected_gated_session(s.gates) {
        Err(Violation::ReopenBufferMissing)
    } else if s.pool_balance > s.fund_balance {
        Err(Violation::Insolvency)
    } else {
        Ok(())
    }
}

/// Check the invariant contract against a snapshot of the composed engine.
pub fn check(snap: &InvariantSnapshot) -> (r: Result<(), Violation>)
    ensures
        r == contract_result(*snap),
        !snap.pool_accounting_ok ==> r == Err::<(), Violation>(Violation::PoolAccounting),
        snap.pool_accounting_ok && !snap.gates.allow_open && !snap.gates.mark_underlying
            && snap.gates.reopen_gap_margin == 0 && snap.gates.extraction_warmup == 0
            ==> r == Err::<(), Violation>(Violation::ReopenBufferMissing),
        r == Err::<(), Violation>(Violation::Insolvency) <==> (snap.pool_accounting_ok
            && (snap.gates.allow_open || snap.gates.mark_underlying || snap.gates.reopen_gap_margin > 0
            || snap.gates.extraction_warmup > 0) && snap.pool_balance > snap.fund_balance),
        r is Ok <==> (snap.pool_accounting_ok && (snap.gates.allow_open || snap.gates.mark_underlying
            || snap.gates.reopen_gap_margin > 0 || snap.gates.extraction_warmup > 0)
            && snap.pool_balance <= snap.fund_balance),
{
    if !snap.pool_accounting_ok {
        return Err(Violation::PoolAccounting);
    }
    let g = snap.gates;
    let unprotected = g.reopen_gap_margin == 0 && g.extraction_warmup == 0;
    if !g.allow_open && !g.mark_underlying && unprotected {
        return Err(Violation::ReopenBufferMissing);
    }
    if snap.pool_balance > snap.fund_balance {
        return Err(Violation::Insolvency);
    }
    Ok(())
}

/// The contract holds exactly when all three properties hold: the pool's
/// accounting identity, gap protection in every gated proxy-marked session, and
/// a pool claim backed by the fund.
pub proof fn lemma_contract_result_ok_iff_all_hold(s: InvariantSnapshot)
    ensures
        contract_result(s) is Ok <==> (s.pool_accounting_ok && !unprotected_gated_session(s.gates)
            && s.pool_balance <= s.fund_balance),
{
}

/// A session that may open, or is marked to the underlying, or holds any reopen
/// buffer or extraction warmup, never trips the gap-protection property.
pub proof fn lemma_protected_session_no_buffer_violation(s: InvariantSnapshot)
    requires
        s.gates.allow_open || s.gates.mark_underlying || s.gates.reopen_gap_margin > 0
            || s.gates.extraction_warmup > 0,
    ensures
        contract_result(s) != Err::<(), Violation>(Violation::ReopenBufferMissing),
{
}

/// The contract reports the first broken property: broken pool accounting before
/// anything else, then a gated proxy-marked session without protection, then a
/// pool claim exceeding the fund.
pub proof fn lemma_first_break_reported(s: InvariantSnapshot)
    ensures
        !s.pool_accounting_ok ==> contract_result(s) == Err::<(), Violation>(Violation::PoolAccounting),
        s.pool_accounting_ok && !s.gates.allow_open && !s.gates.mark_underlying && s.gates.reopen_gap_margin == 0
            && s.gates.extraction_warmup == 0 ==> contract_result(s) == Err::<(), Violation>(
            Violation::ReopenBufferMissing,
        ),
        contract_result(s) == Err::<(), Violation>(Violation::Insolvency) <==> (s.pool_accounting_ok
            && (s.gates.allow_open || s.gates.mark_underlying || s.gates.reopen_gap_margin > 0
            || s.gates.extraction_warmup > 0) && s.pool_balance > s.fund_balance),
{
}

} // verus!
