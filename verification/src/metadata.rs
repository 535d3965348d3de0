//! The module's registration tables, queried by introspection tooling at
//! startup and never at block-processing time: its storage items,
//! operations, events, errors and constants, each with name and shape.

use vstd::prelude::*;
use crate::dispatch::{AuthClass, Weight};
use crate::keys::HashStrategy;
use crate::pallet::{Pallet, Balance, TOTO_INDEX, TOTO_WEIGHT, MY_DEFAULT_BALANCE, EXTRA_CONSTANT};

verus! {

/// One declared storage item: its name, key and value shapes, declared
/// default, and for a map the declared hash strategy.
pub struct StorageItemInfo {
    pub name: &'static str,
    pub key_type: &'static str,
    pub value_type: &'static str,
    pub default_value: Option<Balance>,
    pub hasher: Option<HashStrategy>,
}

/// One registered operation: its index in the dispatch table, name,
/// argument shape, required authorization class, and declared fixed weight.
pub struct OperationInfo {
    pub index: u32,
    pub name: &'static str,
    pub arg_type: &'static str,
    pub auth: AuthClass,
    pub weight: Weight,
}

/// One declared event variant: its name and field shapes.
pub struct EventInfo {
    pub name: &'static str,
    pub fields: &'static str,
}

/// One declared error variant: its index within the module, name, and
/// human-readable description.
pub struct ErrorInfo {
    pub index: u32,
    pub name: &'static str,
    pub description: &'static str,
}

/// One exposed constant: its name, value and description, immutable for the
/// runtime's lifetime.
pub struct ConstantInfo {
    pub name: &'static str,
    pub value: u128,
    pub description: &'static str,
}

impl Pallet {
    /// The storage items this module declares.
    pub fn storage_items(&self) -> (r: Vec<StorageItemInfo>)
        ensures
            r@.len() == 2,
            r@[0].name@ == "MyStorageValue"@,
            r@[0].key_type@ == ""@,
            r@[0].value_type@ == "Balance"@,
            r@[0].default_value == Some(MY_DEFAULT_BALANCE),
            r@[0].hasher == Option::<HashStrategy>::None,
            r@[1].name@ == "MyStorage"@,
            r@[1].key_type@ == "u32"@,
            r@[1].value_type@ == "u32"@,
            r@[1].default_value == Option::<Balance>::None,
            r@[1].hasher == Some(HashStrategy::FnvConcat),
    {
        let mut r: Vec<StorageItemInfo> = Vec::new();
        r.push(
            StorageItemInfo {
                name: "MyStorageValue",
                key_type: "",
                value_type: "Balance",
                default_value: Some(MY_DEFAULT_BALANCE),
                hasher: None,
            },
        );
        r.push(
            StorageItemInfo {
                name: "MyStorage",
                key_type: "u32",
                value_type: "u32",
                default_value: None,
                hasher: Some(HashStrategy::FnvConcat),
            },
        );
        r
    }

    /// The operations this module registers: `dispatch` routes by the same
    /// index and enforces the same authorization class and declared weight,
    /// as its contract states.
    pub fn operations(&self) -> (r: Vec<OperationInfo>)
        ensures
            r@.len() == 1,
            r@[0].index == TOTO_INDEX,
            r@[0].name@ == "toto"@,
            r@[0].arg_type@ == "u32"@,
            r@[0].auth == AuthClass::Signed,
            r@[0].weight == TOTO_WEIGHT,
    {
        let mut r: Vec<OperationInfo> = Vec::new();
        r.push(
            OperationInfo {
                index: TOTO_INDEX,
                name: "toto",
                arg_type: "u32",
                auth: AuthClass::Signed,
                weight: TOTO_WEIGHT,
            },
        );
        r
    }

    /// The event variants this module declares.
    pub fn events(&self) -> (r: Vec<EventInfo>)
        ensures
            r@.len() == 3,
            r@[0].name@ == "Proposed"@,
            r@[0].fields@ == "AccountId"@,
            r@[1].name@ == "Spending"@,
            r@[1].fields@ == "Balance"@,
            r@[2].name@ == "Something"@,
            r@[2].fields@ == "u32"@,
    {
        let mut r: Vec<EventInfo> = Vec::new();
        r.push(EventInfo { name: "Proposed", fields: "AccountId" });
        r.push(EventInfo { name: "Spending", fields: "Balance" });
        r.push(EventInfo { name: "Something", fields: "u32" });
        r
    }

    /// The error variants this module declares.
    pub fn errors(&self) -> (r: Vec<ErrorInfo>)
        ensures
            r@.len() == 1,
            r@[0].index == 0,
            r@[0].name@ == "InsufficientProposersBalance"@,
    {
        let mut r: Vec<ErrorInfo> = Vec::new();
        r.push(
            ErrorInfo {
                index: 0,
                name: "InsufficientProposersBalance",
                description: "the operation's argument exceeds what the proposer's balance allows",
            },
        );
        r
    }

    /// The constants this module exposes: its configured parameter and its
    /// extra constant.
    pub fn constants(&self) -> (r: Vec<ConstantInfo>)
        ensures
            r@.len() == 2,
            r@[0].name@ == "MyGetParam"@,
            r@[0].value == self.config.my_get_param as u128,
            r@[1].name@ == "ExtraConstantName"@,
            r@[1].value == EXTRA_CONSTANT,
    {
        let mut r: Vec<ConstantInfo> = Vec::new();
        r.push(
            ConstantInfo {
                name: "MyGetParam",
                value: self.config.my_get_param as u128,
                description: "a tunable parameter supplied by the configuration",
            },
        );
        r.push(
            ConstantInfo {
                name: "ExtraConstantName",
                value: EXTRA_CONSTANT,
                description: "an extra constant exposed for introspection",
            },
        );
        r
    }
}

} // verus!
