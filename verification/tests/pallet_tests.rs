use runtime_module::codec::Codec;
use runtime_module::dispatch::{
    charge_weight, check_authorization, ensure_signed, AuthClass, DispatchError, Origin,
};
use runtime_module::lifecycle::{execute_block, Transaction};
use runtime_module::pallet::{
    deposit_event, my_default, Config, Error, Event, GenesisConfig, Pallet, TOTO_INDEX,
};
use runtime_module::store::Store;

fn pallet() -> Pallet {
    Pallet::new(Config { module_id: vec![0x77, 0x69], my_get_param: 8 })
}

#[test]
fn ensure_signed_accepts_only_signed() {
    assert_eq!(ensure_signed::<Error>(Origin::Signed(9)), Ok(9));
    assert_eq!(ensure_signed::<Error>(Origin::Root), Err(DispatchError::BadOrigin));
    assert_eq!(ensure_signed::<Error>(Origin::Unsigned), Err(DispatchError::BadOrigin));
}

#[test]
fn authorization_classes() {
    assert!(check_authorization::<Error>(AuthClass::Signed, Origin::Signed(1)).is_ok());
    assert!(check_authorization::<Error>(AuthClass::Signed, Origin::Root).is_err());
    assert!(check_authorization::<Error>(AuthClass::Root, Origin::Root).is_ok());
    assert!(check_authorization::<Error>(AuthClass::Root, Origin::Unsigned).is_err());
    assert!(check_authorization::<Error>(AuthClass::Any, Origin::Unsigned).is_ok());
}

#[test]
fn weight_metering_saturates() {
    let mut meter = 5u64;
    charge_weight(&mut meter, 10);
    assert_eq!(meter, 15);
    charge_weight(&mut meter, u64::MAX);
    assert_eq!(meter, u64::MAX);
}

#[test]
fn deposit_event_appends() {
    let mut events = vec![Event::Proposed(1)];
    deposit_event(&mut events, Event::Spending(2));
    assert_eq!(events, vec![Event::Proposed(1), Event::Spending(2)]);
}

#[test]
fn toto_success_emits_event() {
    // Operation `toto` with `foo = 5` from a signed origin: success, one
    // `Something(5)` event, weight 0.
    let p = pallet();
    let mut store = Store::new();
    let mut events = Vec::new();
    let mut meter = 0u64;
    let r = p.dispatch(
        &mut store,
        &mut events,
        &mut meter,
        Origin::Signed(1),
        TOTO_INDEX,
        &5u32.encode(),
    );
    assert_eq!(r, Ok(()));
    assert_eq!(events, vec![Event::Something(5)]);
    assert_eq!(meter, 0);
}

#[test]
fn toto_guard_failure_reports_module_error() {
    // With `foo = 15` the guard fails: the module error comes back and no
    // event is emitted.
    let p = pallet();
    let mut store = Store::new();
    let mut events = Vec::new();
    let mut meter = 0u64;
    let r = p.dispatch(
        &mut store,
        &mut events,
        &mut meter,
        Origin::Signed(1),
        TOTO_INDEX,
        &15u32.encode(),
    );
    assert_eq!(r, Err(DispatchError::Module(Error::InsufficientProposersBalance)));
    assert_eq!(events, Vec::new());
    assert_eq!(meter, 0);
}

#[test]
fn toto_boundary_argument() {
    let p = pallet();
    let mut events = Vec::new();
    let r = p.toto(&mut events, Origin::Signed(1), 9);
    assert_eq!(r, Ok(()));
    let r = p.toto(&mut events, Origin::Signed(1), 10);
    assert_eq!(r, Err(DispatchError::Module(Error::InsufficientProposersBalance)));
    assert_eq!(events, vec![Event::Something(9)]);
}

#[test]
fn undecodable_payload_is_rejected_and_storage_untouched() {
    let p = pallet();
    let mut store = Store::new();
    let item = p.my_storage_value();
    item.set(&mut store, 21);
    let mut events = Vec::new();
    let mut meter = 0u64;
    for bad in [vec![], vec![1u8, 2, 3], vec![1u8, 2, 3, 4, 5]] {
        let r = p.dispatch(
            &mut store,
            &mut events,
            &mut meter,
            Origin::Signed(1),
            TOTO_INDEX,
            &bad,
        );
        assert_eq!(r, Err(DispatchError::CannotDecode));
    }
    assert_eq!(events, Vec::new());
    assert_eq!(meter, 0);
    assert_eq!(item.get(&store), 21);
}

#[test]
fn unauthorized_origin_is_rejected_and_storage_untouched() {
    let p = pallet();
    let mut store = Store::new();
    let item = p.my_storage_value();
    item.set(&mut store, 21);
    let mut events = Vec::new();
    let mut meter = 0u64;
    for origin in [Origin::Root, Origin::Unsigned] {
        let r = p.dispatch(
            &mut store,
            &mut events,
            &mut meter,
            origin,
            TOTO_INDEX,
            &5u32.encode(),
        );
        assert_eq!(r, Err(DispatchError::BadOrigin));
    }
    assert_eq!(events, Vec::new());
    assert_eq!(meter, 0);
    assert_eq!(item.get(&store), 21);
}

#[test]
fn unknown_operation_is_rejected() {
    let p = pallet();
    let mut store = Store::new();
    let mut events = Vec::new();
    let mut meter = 0u64;
    let r = p.dispatch(
        &mut store,
        &mut events,
        &mut meter,
        Origin::Signed(1),
        99,
        &5u32.encode(),
    );
    assert_eq!(r, Err(DispatchError::UnknownOperation));
    assert_eq!(events, Vec::new());
    assert_eq!(meter, 0);
}

#[test]
fn on_initialize_runs_once_before_transactions() {
    // Block 1 with no transactions: only the hook's declared weight 10 is
    // charged, exactly once.
    let p = pallet();
    let mut store = Store::new();
    let outcome = execute_block(&p, &mut store, 1, &Vec::new());
    assert_eq!(outcome.weight, 10);
    assert_eq!(outcome.results, Vec::new());
    assert_eq!(outcome.events, Vec::new());
    assert_eq!(p.on_initialize(1), 10);
}

#[test]
fn block_execution_dispatches_in_order() {
    let p = pallet();
    let mut store = Store::new();
    let txs = vec![
        Transaction { origin: Origin::Signed(1), op_index: TOTO_INDEX, payload: 5u32.encode() },
        Transaction { origin: Origin::Signed(2), op_index: TOTO_INDEX, payload: 15u32.encode() },
        Transaction { origin: Origin::Root, op_index: TOTO_INDEX, payload: 5u32.encode() },
        Transaction { origin: Origin::Signed(3), op_index: TOTO_INDEX, payload: vec![9] },
    ];
    let outcome = execute_block(&p, &mut store, 1, &txs);
    assert_eq!(
        outcome.results,
        vec![
            Ok(()),
            Err(DispatchError::Module(Error::InsufficientProposersBalance)),
            Err(DispatchError::BadOrigin),
            Err(DispatchError::CannotDecode),
        ]
    );
    assert_eq!(outcome.events, vec![Event::Something(5)]);
    assert_eq!(outcome.weight, 10);
}

#[test]
fn genesis_values_shadow_defaults() {
    let p = pallet();
    let mut store = Store::new();
    let genesis = GenesisConfig {
        my_storage_value: 7,
        my_storage: vec![(1, 10), (2, 20)],
    };
    p.build_genesis(&mut store, &genesis);
    let item = p.my_storage_value();
    assert_eq!(item.get(&store), 7);
    assert_ne!(item.get(&store), item.default);
    assert_eq!(p.my_storage(&store, 1), Some(10));
    assert_eq!(p.my_storage(&store, 2), Some(20));
    assert_eq!(p.my_storage(&store, 3), None);
}

#[test]
fn unset_value_reads_declared_default() {
    let p = pallet();
    let store = Store::new();
    let item = p.my_storage_value();
    assert_eq!(item.get(&store), 3);
    assert_eq!(my_default(), 3);
}

#[test]
fn extra_constant_value() {
    assert_eq!(pallet().extra_constant_name(), 4u128);
}

#[test]
fn error_description_is_stable() {
    let e = Error::InsufficientProposersBalance;
    assert!(!e.description().is_empty());
}

#[test]
fn metadata_tables() {
    let p = pallet();
    let storage = p.storage_items();
    assert_eq!(storage.len(), 2);
    assert_eq!(storage[0].name, "MyStorageValue");
    assert_eq!(storage[0].default_value, Some(3));
    assert_eq!(storage[1].name, "MyStorage");
    assert_eq!(storage[1].key_type, "u32");

    let ops = p.operations();
    assert_eq!(ops.len(), 1);
    assert_eq!(ops[0].name, "toto");
    assert_eq!(ops[0].index, TOTO_INDEX);
    assert_eq!(ops[0].auth, AuthClass::Signed);
    assert_eq!(ops[0].weight, 0);

    let events = p.events();
    assert_eq!(events.len(), 3);
    assert_eq!(events[2].name, "Something");

    let errors = p.errors();
    assert_eq!(errors.len(), 1);
    assert_eq!(errors[0].name, "InsufficientProposersBalance");

    let constants = p.constants();
    assert_eq!(constants.len(), 2);
    assert_eq!(constants[0].name, "MyGetParam");
    assert_eq!(constants[0].value, 8);
    assert_eq!(constants[1].name, "ExtraConstantName");
    assert_eq!(constants[1].value, 4);
}
