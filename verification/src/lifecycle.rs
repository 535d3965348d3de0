//! The block-lifecycle protocol: once per block, `on_initialize` fires and
//! its declared weight is charged before any transaction is dispatched; the
//! block's transactions are then dispatched sequentially, in the order the
//! runtime presents them, against a fresh per-block event log.

use vstd::prelude::*;
use crate::dispatch::{DispatchError, Weight, charged, charge_weight};
use crate::pallet::{Pallet, Error, Event, BlockNumber, dispatch_result, dispatch_emitted,
    dispatch_weight, ON_INITIALIZE_WEIGHT};
use crate::store::Store;

verus! {

/// One transaction the runtime resolved to this module: an operation index,
/// the authenticated origin it arrived with, and its argument payload.
pub struct Transaction {
    pub origin: crate::dispatch::Origin,
    pub op_index: u32,
    pub payload: Vec<u8>,
}

/// The dispatch results of a block's transactions, in order.
pub open spec fn block_results(txs: Seq<Transaction>) -> Seq<Result<(), DispatchError<Error>>>
    decreases txs.len(),
{
    if txs.len() == 0 {
        Seq::empty()
    } else {
        block_results(txs.drop_last()).push(
            dispatch_result(txs.last().origin, txs.last().op_index, txs.last().payload@),
        )
    }
}

/// The block's event log after all transactions, in emission order.
pub open spec fn block_emitted(txs: Seq<Transaction>) -> Seq<Event>
    decreases txs.len(),
{
    if txs.len() == 0 {
        Seq::empty()
    } else {
        block_emitted(txs.drop_last()) + dispatch_emitted(
            txs.last().origin,
            txs.last().op_index,
            txs.last().payload@,
        )
    }
}

/// The metering account after the block: the `on_initialize` weight first,
/// then each transaction's consumed weight in order.
pub open spec fn block_weight(txs: Seq<Transaction>) -> Weight
    decreases txs.len(),
{
    if txs.len() == 0 {
        charged(0, ON_INITIALIZE_WEIGHT)
    } else {
        charged(
            block_weight(txs.drop_last()),
            dispatch_weight(txs.last().origin, txs.last().op_index, txs.last().payload@),
        )
    }
}

/// What one block's processing produced: per-transaction results, the
/// block's event log, and the total weight charged.
pub struct BlockOutcome {
    pub results: Vec<Result<(), DispatchError<Error>>>,
    pub events: Vec<Event>,
    pub weight: Weight,
}

/// Processes one block against the module: fires `on_initialize` exactly
/// once and charges its declared weight before any transaction is
/// dispatched, then dispatches each transaction in order. The module
/// implements no block-end hook, so the block ends after the last
/// transaction. No operation of this module writes storage, so the store is
/// left exactly as it was.
pub fn execute_block(
    pallet: &Pallet,
    store: &mut Store,
    block_number: BlockNumber,
    txs: &Vec<Transaction>,
) -> (r: BlockOutcome)
    ensures
        *final(store) == *old(store),
        r.results@ == block_results(txs@),
        r.events@ == block_emitted(txs@),
        r.weight == block_weight(txs@),
{
    let mut events: Vec<Event> = Vec::new();
    let mut meter: Weight = 0;
    let w0 = pallet.on_initialize(block_number);
    charge_weight(&mut meter, w0);
    let mut results: Vec<Result<(), DispatchError<Error>>> = Vec::new();
    let n = txs.len();
    let mut i: usize = 0;
    proof {
        assert(txs@.subrange(0, 0) =~= Seq::<Transaction>::empty());
    }
    while i < n
        invariant
            n == txs@.len(),
            0 <= i <= n,
            *store == *old(store),
            results@ == block_results(txs@.subrange(0, i as int)),
            events@ == block_emitted(txs@.subrange(0, i as int)),
            meter == block_weight(txs@.subrange(0, i as int)),
        decreases n - i,
    {
        let ghost pre = txs@.subrange(0, i as int);
        let tx = &txs[i];
        let r = pallet.dispatch(store, &mut events, &mut meter, tx.origin, tx.op_index,
            &tx.payload);
        results.push(r);
        proof {
            let cur = txs@.subrange(0, i as int + 1);
            assert(cur.drop_last() =~= pre);
            assert(cur.last() == txs@[i as int]);
        }
        i = i + 1;
    }
    proof {
        assert(txs@.subrange(0, n as int) =~= txs@);
    }
    BlockOutcome { results, events, weight: meter }
}

} // verus!
