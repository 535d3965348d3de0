//! A concrete runtime module: its configuration contract, storage items,
//! dispatchable operations, events, errors, constants and genesis state,
//! wired together through explicit registration tables.
//!
//! The module declares two storage items — `MyStorageValue`, a single
//! `Balance` with default `3`, and `MyStorage`, a `u32 -> u32` map hashed
//! with the FNV-concat strategy — and one operation, `toto`, callable by a
//! signed origin with a `u32` argument below `10`.

use vstd::prelude::*;
use crate::codec::Codec;
use crate::codec::lemma_encoding_injective;
use crate::codec::bytes_clone;
use crate::keys::{KeySpace, HashStrategy, hashed, prefix_of, is_prefix_of,
    lemma_distinct_names_cover_disjoint_keys, lemma_concat_suffix_injective,
    lemma_hashed_injective, MAP_TAG, VALUE_TAG};
use crate::store::Store;
use crate::storage::{StorageValue, StorageMap, stored_value_or, stored_entry};
use crate::dispatch::{Origin, AuthClass, DispatchError, Weight, AccountId, ensure_signed,
    check_authorization, charge_weight, charged};

verus! {

/// The numeric value type the module's storage and events use, bound by the
/// configuration contract and convertible from small integers.
pub type Balance = u64;

/// The block counter type the lifecycle hooks are invoked with.
pub type BlockNumber = u64;

/// The operation index of `toto` in this module's dispatch table.
pub const TOTO_INDEX: u32 = 0;

/// The declared fixed weight of `toto`.
pub const TOTO_WEIGHT: Weight = 0;

/// The weight `on_initialize` consumes for the module's own housekeeping,
/// charged against the block's budget before any transaction runs.
pub const ON_INITIALIZE_WEIGHT: Weight = 10;

/// The declared default of `MyStorageValue`, read while the item is unset.
pub const MY_DEFAULT_BALANCE: Balance = 3;

/// The extra constant the module exposes for introspection.
pub const EXTRA_CONSTANT: u128 = 4;

/// The set of associated values a concrete deployment must supply: the
/// module's storage namespace, assigned and validated for uniqueness by the
/// enclosing runtime at assembly time, and the module's tunable constant.
pub struct Config {
    /// The stable module identifier all storage keys are derived from.
    pub module_id: Vec<u8>,
    /// A tunable constant, exposed in the constants table.
    pub my_get_param: u32,
}

/// The module's closed set of business error reasons, identified as
/// (module, variant) and carrying nothing beyond identity.
#[derive(Clone, Copy, PartialEq, Eq, Debug)]
pub enum Error {
    /// The operation's argument exceeds what the proposer's balance allows.
    InsufficientProposersBalance,
}

impl Error {
    /// The human-readable description the errors table carries.
    pub fn description(&self) -> (r: &'static str) {
        "the operation's argument exceeds what the proposer's balance allows"
    }
}

/// The typed notifications the module appends to the block's event log.
#[derive(Clone, Copy, PartialEq, Eq, Debug)]
pub enum Event {
    /// An account made a proposal.
    Proposed(AccountId),
    /// An amount was spent.
    Spending(Balance),
    /// `toto` ran with the given argument.
    Something(u32),
}

/// Appends an event to the block's event log, owned by the runtime and
/// write-only from the module's perspective.
pub fn deposit_event(events: &mut Vec<Event>, event: Event)
    ensures
        final(events)@ == old(events)@.push(event),
{
    events.push(event);
}

/// The declared default of `MyStorageValue`.
pub fn my_default() -> (r: Balance)
    ensures
        r == MY_DEFAULT_BALANCE,
{
    3
}

/// The item name `MyStorageValue` derives its key space from.
pub open spec fn my_storage_value_name() -> Seq<u8> {
    seq![77u8, 121u8, 83u8, 116u8, 111u8, 114u8, 97u8, 103u8, 101u8, 86u8, 97u8, 108u8, 117u8, 101u8]
}

/// The item name `MyStorage` derives its key space from.
pub open spec fn my_storage_name() -> Seq<u8> {
    seq![77u8, 121u8, 83u8, 116u8, 111u8, 114u8, 97u8, 103u8, 101u8]
}

fn my_storage_value_item_name() -> (r: Vec<u8>)
    ensures
        r@ == my_storage_value_name(),
{
    let r = vec![77u8, 121u8, 83u8, 116u8, 111u8, 114u8, 97u8, 103u8, 101u8, 86u8, 97u8, 108u8, 117u8, 101u8];
    proof {
        assert(r@ =~= my_storage_value_name());
    }
    r
}

fn my_storage_item_name() -> (r: Vec<u8>)
    ensures
        r@ == my_storage_name(),
{
    let r = vec![77u8, 121u8, 83u8, 116u8, 111u8, 114u8, 97u8, 103u8, 101u8];
    proof {
        assert(r@ =~= my_storage_name());
    }
    r
}

/// What `toto` returns for a decoded argument from a signed origin.
pub open spec fn toto_result(foo: u32) -> Result<(), DispatchError<Error>> {
    if foo < 10 {
        Ok(())
    } else {
        Err(DispatchError::Module(Error::InsufficientProposersBalance))
    }
}

/// What `toto` appends to the event log for a decoded argument from a signed
/// origin.
pub open spec fn toto_emitted(foo: u32) -> Seq<Event> {
    if foo < 10 {
        seq![Event::Something(foo)]
    } else {
        Seq::empty()
    }
}

/// What `dispatch` returns: the operation must exist, then its authorization
/// class is checked before anything else, then the payload is decoded, then
/// the operation's own logic decides.
pub open spec fn dispatch_result(origin: Origin, op_index: u32, payload: Seq<u8>) -> Result<
    (),
    DispatchError<Error>,
> {
    if op_index != TOTO_INDEX {
        Err(DispatchError::UnknownOperation)
    } else if !origin.is_signed() {
        Err(DispatchError::BadOrigin)
    } else {
        match <u32 as Codec>::decoded(payload) {
            Some(foo) => toto_result(foo),
            None => Err(DispatchError::CannotDecode),
        }
    }
}

/// What `dispatch` appends to the event log.
pub open spec fn dispatch_emitted(origin: Origin, op_index: u32, payload: Seq<u8>) -> Seq<Event> {
    if op_index == TOTO_INDEX && origin.is_signed() {
        match <u32 as Codec>::decoded(payload) {
            Some(foo) => toto_emitted(foo),
            None => Seq::empty(),
        }
    } else {
        Seq::empty()
    }
}

/// What `dispatch` reports to the metering account: nothing for an
/// infrastructure error, the operation's declared weight once its logic ran.
pub open spec fn dispatch_weight(origin: Origin, op_index: u32, payload: Seq<u8>) -> Weight {
    if op_index == TOTO_INDEX && origin.is_signed() && <u32 as Codec>::decoded(payload) is Some {
        TOTO_WEIGHT
    } else {
        0
    }
}

/// The module: one unit of state-transition logic, parameterized by exactly
/// one configuration, fixed for the runtime's lifetime.
pub struct Pallet {
    pub config: Config,
}

impl Pallet {
    /// The module identifier fits the key derivation's length prefix.
    pub open spec fn wf(self) -> bool {
        self.config.module_id@.len() <= 255
    }

    /// The physical key `MyStorageValue` is stored under.
    pub open spec fn my_value_key(self) -> Seq<u8> {
        prefix_of(self.config.module_id@, my_storage_value_name()) + seq![VALUE_TAG]
    }

    /// The physical key a `MyStorage` entry is stored under.
    pub open spec fn my_map_entry_key(self, k: u32) -> Seq<u8> {
        prefix_of(self.config.module_id@, my_storage_name()) + seq![MAP_TAG] + hashed(
            HashStrategy::FnvConcat,
            k.encoded(),
        )
    }

    /// The value `MyStorageValue` holds in a store.
    pub open spec fn my_value_of(self, m: Map<Seq<u8>, Seq<u8>>) -> Balance {
        stored_value_or(m, self.my_value_key(), MY_DEFAULT_BALANCE)
    }

    /// The value `MyStorage` holds under a key in a store, if any.
    pub open spec fn my_map_entry(self, m: Map<Seq<u8>, Seq<u8>>, k: u32) -> Option<u32> {
        stored_entry(m, self.my_map_entry_key(k))
    }

    pub fn new(config: Config) -> (r: Pallet)
        requires
            config.module_id@.len() <= 255,
        ensures
            r.wf(),
            r.config.module_id@ == config.module_id@,
            r.config.my_get_param == config.my_get_param,
    {
        Pallet { config }
    }

    /// The `MyStorageValue` storage item: a single `Balance` with declared
    /// default `MY_DEFAULT_BALANCE`.
    pub fn my_storage_value(&self) -> (r: StorageValue<Balance>)
        requires
            self.wf(),
        ensures
            r.wf(),
            r.key() == self.my_value_key(),
            r.default == MY_DEFAULT_BALANCE,
    {
        let space = KeySpace::new(bytes_clone(&self.config.module_id), my_storage_value_item_name());
        let r = StorageValue::new(space, my_default());
        proof {
            assert(r.key() =~= self.my_value_key());
        }
        r
    }

    /// The `MyStorage` storage item: a `u32 -> u32` map, keys hashed with
    /// the FNV-concat strategy.
    pub fn my_storage_map(&self) -> (r: StorageMap<u32, u32>)
        requires
            self.wf(),
        ensures
            r.wf(),
            forall|k: u32| r.entry_key(k) == self.my_map_entry_key(k),
    {
        let space = KeySpace::new(bytes_clone(&self.config.module_id), my_storage_item_name());
        let r = StorageMap::new(space, HashStrategy::FnvConcat);
        proof {
            assert forall|k: u32| r.entry_key(k) == self.my_map_entry_key(k) by {
                assert(r.entry_key(k) =~= self.my_map_entry_key(k));
            }
        }
        r
    }

    /// Getter for `MyStorage`: the value stored under a key, if any.
    pub fn my_storage(&self, store: &Store, k: u32) -> (r: Option<u32>)
        requires
            self.wf(),
            store.wf(),
        ensures
            r == self.my_map_entry(store@, k),
    {
        let map = self.my_storage_map();
        map.get(store, &k)
    }

    /// The extra constant exposed for introspection.
    pub fn extra_constant_name(&self) -> (r: u128)
        ensures
            r == EXTRA_CONSTANT,
    {
        4u128
    }

    /// The `toto` operation: requires a signed origin, then requires its
    /// argument to be below `10`, then emits `Something(foo)`. Touches no
    /// storage; a precondition failure leaves the event log untouched.
    pub fn toto(&self, events: &mut Vec<Event>, origin: Origin, foo: u32) -> (r: Result<
        (),
        DispatchError<Error>,
    >)
        ensures
            !origin.is_signed() ==> r == Err::<(), DispatchError<Error>>(DispatchError::BadOrigin)
                && final(events)@ == old(events)@,
            origin.is_signed() ==> r == toto_result(foo) && final(events)@ == old(events)@
                + toto_emitted(foo),
    {
        let _who = match ensure_signed::<Error>(origin) {
            Ok(who) => who,
            Err(e) => {
                return Err(e);
            },
        };
        if !(foo < 10) {
            proof {
                assert(old(events)@ + toto_emitted(foo) =~= old(events)@);
            }
            return Err(DispatchError::Module(Error::InsufficientProposersBalance));
        }
        deposit_event(events, Event::Something(foo));
        proof {
            assert(old(events)@ + toto_emitted(foo) =~= old(events)@.push(Event::Something(foo)));
        }
        Ok(())
    }

    /// Routes one call: resolves the operation index, checks the origin
    /// against the operation's authorization class before any state is
    /// touched, decodes the payload, runs the operation, and reports the
    /// consumed weight to the metering account. No operation of this module
    /// writes storage, so the store is left exactly as it was.
    pub fn dispatch(
        &self,
        store: &mut Store,
        events: &mut Vec<Event>,
        meter: &mut Weight,
        origin: Origin,
        op_index: u32,
        payload: &Vec<u8>,
    ) -> (r: Result<(), DispatchError<Error>>)
        ensures
            *final(store) == *old(store),
            r == dispatch_result(origin, op_index, payload@),
            final(events)@ == old(events)@ + dispatch_emitted(origin, op_index, payload@),
            *final(meter) == charged(*old(meter), dispatch_weight(origin, op_index, payload@)),
    {
        proof {
            assert(old(events)@ + Seq::<Event>::empty() =~= old(events)@);
        }
        if op_index != TOTO_INDEX {
            return Err(DispatchError::UnknownOperation);
        }
        if let Err(e) = check_authorization::<Error>(AuthClass::Signed, origin) {
            return Err(e);
        }
        let foo = match <u32 as Codec>::decode(payload.as_slice()) {
            Some(foo) => foo,
            None => {
                return Err(DispatchError::CannotDecode);
            },
        };
        let r = self.toto(events, origin, foo);
        charge_weight(meter, TOTO_WEIGHT);
        r
    }

    /// Block-start hook: fires once per block before any transaction is
    /// dispatched, and declares the weight its housekeeping consumed.
    pub fn on_initialize(&self, _block_number: BlockNumber) -> (w: Weight)
        ensures
            w == ON_INITIALIZE_WEIGHT,
    {
        ON_INITIALIZE_WEIGHT
    }
}

/// The structured initial-state descriptor, applied exactly once before the
/// first block; each initialized item is written through the storage layer.
pub struct GenesisConfig {
    /// The initial value of `MyStorageValue`.
    pub my_storage_value: Balance,
    /// The initial entries of `MyStorage`, each key given once.
    pub my_storage: Vec<(u32, u32)>,
}

/// Each genesis map key is given once.
pub open spec fn distinct_genesis_keys(entries: Seq<(u32, u32)>) -> bool {
    forall|i: int, j: int| 0 <= i < j < entries.len() ==> entries[i].0 != entries[j].0
}

impl Pallet {
    /// The store after genesis: the initial value, then each map entry, each
    /// written through the storage layer in order.
    pub open spec fn genesis_written(
        self,
        m: Map<Seq<u8>, Seq<u8>>,
        value: Balance,
        entries: Seq<(u32, u32)>,
    ) -> Map<Seq<u8>, Seq<u8>>
        decreases entries.len(),
    {
        if entries.len() == 0 {
            m.insert(self.my_value_key(), value.encoded())
        } else {
            self.genesis_written(m, value, entries.drop_last()).insert(
                self.my_map_entry_key(entries.last().0),
                entries.last().1.encoded(),
            )
        }
    }

    /// Applies the genesis descriptor, writing each initial value through
    /// the storage layer.
    pub fn build_genesis(&self, store: &mut Store, genesis: &GenesisConfig)
        requires
            self.wf(),
            old(store).wf(),
        ensures
            final(store).wf(),
            final(store)@ == self.genesis_written(
                old(store)@,
                genesis.my_storage_value,
                genesis.my_storage@,
            ),
    {
        let sv = self.my_storage_value();
        sv.set(store, genesis.my_storage_value);
        let sm = self.my_storage_map();
        let n = genesis.my_storage.len();
        let mut i: usize = 0;
        proof {
            assert(genesis.my_storage@.subrange(0, 0) =~= Seq::<(u32, u32)>::empty());
        }
        while i < n
            invariant
                self.wf(),
                store.wf(),
                sm.wf(),
                forall|k: u32| sm.entry_key(k) == self.my_map_entry_key(k),
                0 <= i <= n,
                n == genesis.my_storage@.len(),
                store@ == self.genesis_written(
                    old(store)@,
                    genesis.my_storage_value,
                    genesis.my_storage@.subrange(0, i as int),
                ),
            decreases n - i,
        {
            let ghost pre = genesis.my_storage@.subrange(0, i as int);
            let (k, v) = genesis.my_storage[i];
            sm.insert(store, k, v);
            proof {
                let cur = genesis.my_storage@.subrange(0, i as int + 1);
                assert(cur.drop_last() =~= pre);
                assert(cur.last() == genesis.my_storage@[i as int]);
            }
            i = i + 1;
        }
        proof {
            assert(genesis.my_storage@.subrange(0, n as int) =~= genesis.my_storage@);
        }
    }

    /// `MyStorageValue`'s physical key is never a `MyStorage` entry's: the
    /// two items' key spaces are disjoint.
    pub proof fn lemma_value_key_not_entry_key(self, k: u32)
        requires
            self.wf(),
        ensures
            self.my_value_key() != self.my_map_entry_key(k),
    {
        let mid = self.config.module_id@;
        let p1 = prefix_of(mid, my_storage_value_name());
        let p2 = prefix_of(mid, my_storage_name());
        if self.my_value_key() == self.my_map_entry_key(k) {
            let key = self.my_value_key();
            assert(key.subrange(0, p1.len() as int) =~= p1);
            assert(is_prefix_of(p1, key));
            assert(self.my_map_entry_key(k).subrange(0, p2.len() as int) =~= p2);
            assert(is_prefix_of(p2, key));
            lemma_distinct_names_cover_disjoint_keys(
                mid,
                my_storage_value_name(),
                mid,
                my_storage_name(),
            );
        }
    }

    /// Distinct `MyStorage` keys land on distinct physical keys.
    pub proof fn lemma_entry_keys_injective(self, k1: u32, k2: u32)
        requires
            self.my_map_entry_key(k1) == self.my_map_entry_key(k2),
        ensures
            k1 == k2,
    {
        let p = prefix_of(self.config.module_id@, my_storage_name()) + seq![MAP_TAG];
        let h1 = hashed(HashStrategy::FnvConcat, k1.encoded());
        let h2 = hashed(HashStrategy::FnvConcat, k2.encoded());
        assert(self.my_map_entry_key(k1) == p + h1);
        assert(self.my_map_entry_key(k2) == p + h2);
        lemma_concat_suffix_injective(p, h1, h2);
        lemma_hashed_injective(HashStrategy::FnvConcat, k1.encoded(), k2.encoded());
        lemma_encoding_injective::<u32>(k1, k2);
    }

    /// Genesis application followed by an immediate read of `MyStorageValue`
    /// returns the genesis-provided value, not the declared default.
    pub proof fn lemma_genesis_value_read(
        self,
        m: Map<Seq<u8>, Seq<u8>>,
        value: Balance,
        entries: Seq<(u32, u32)>,
    )
        requires
            self.wf(),
        ensures
            self.my_value_of(self.genesis_written(m, value, entries)) == value,
        decreases entries.len(),
    {
        if entries.len() == 0 {
            value.lemma_round_trip();
        } else {
            self.lemma_genesis_value_read(m, value, entries.drop_last());
            self.lemma_value_key_not_entry_key(entries.last().0);
        }
    }

    /// Genesis application followed by an immediate read of any initialized
    /// `MyStorage` entry returns the genesis-provided value.
    pub proof fn lemma_genesis_map_read(
        self,
        m: Map<Seq<u8>, Seq<u8>>,
        value: Balance,
        entries: Seq<(u32, u32)>,
        i: int,
    )
        requires
            self.wf(),
            distinct_genesis_keys(entries),
            0 <= i < entries.len(),
        ensures
            self.my_map_entry(self.genesis_written(m, value, entries), entries[i].0) == Some(
                entries[i].1,
            ),
        decreases entries.len(),
    {
        if i == entries.len() - 1 {
            entries.last().1.lemma_round_trip();
        } else {
            let t = entries.drop_last();
            assert forall|a: int, b: int| 0 <= a < b < t.len() implies t[a].0 != t[b].0 by {
                assert(t[a] == entries[a]);
                assert(t[b] == entries[b]);
            }
            self.lemma_genesis_map_read(m, value, t, i);
            assert(t[i] == entries[i]);
            assert(entries.last().0 != entries[i].0);
            if self.my_map_entry_key(entries.last().0) == self.my_map_entry_key(entries[i].0) {
                self.lemma_entry_keys_injective(entries.last().0, entries[i].0);
            }
        }
    }
}

/// A payload failing to decode against the operation's argument type is
/// rejected with the decode-failure infrastructure error, emits nothing, and
/// is charged nothing.
pub proof fn lemma_undecodable_payload_rejected(origin: Origin, payload: Seq<u8>)
    requires
        origin.is_signed(),
        <u32 as Codec>::decoded(payload) is None,
    ensures
        dispatch_result(origin, TOTO_INDEX, payload) == Err::<(), DispatchError<Error>>(
            DispatchError::CannotDecode,
        ),
        dispatch_emitted(origin, TOTO_INDEX, payload) == Seq::<Event>::empty(),
        dispatch_weight(origin, TOTO_INDEX, payload) == 0,
{
}

/// An origin that does not satisfy the operation's authorization class is
/// rejected with the authorization infrastructure error, emits nothing, and
/// is charged nothing — whatever the payload.
pub proof fn lemma_unauthorized_origin_rejected(origin: Origin, payload: Seq<u8>)
    requires
        !origin.is_signed(),
    ensures
        dispatch_result(origin, TOTO_INDEX, payload) == Err::<(), DispatchError<Error>>(
            DispatchError::BadOrigin,
        ),
        dispatch_emitted(origin, TOTO_INDEX, payload) == Seq::<Event>::empty(),
        dispatch_weight(origin, TOTO_INDEX, payload) == 0,
{
}

} // verus!
