//! Dispatch primitives shared by every module: the authenticated origin of a
//! call, the authorization classes an operation may require, the two
//! infrastructure error classes detected before module logic runs, and the
//! weight metering the enclosing runtime budgets blocks with.

use vstd::prelude::*;

verus! {

/// The account identifier of a signed caller.
pub type AccountId = u64;

/// The deterministic, bounded cost metric of an operation or hook.
pub type Weight = u64;

/// The authenticated caller context an operation is invoked with.
#[derive(Clone, Copy, PartialEq, Eq, Debug)]
pub enum Origin {
    /// A transaction signed by an account.
    Signed(AccountId),
    /// The runtime's own privileged origin.
    Root,
    /// An unsigned, unauthenticated origin.
    Unsigned,
}

impl Origin {
    pub open spec fn is_signed(self) -> bool {
        match self {
            Origin::Signed(_) => true,
            _ => false,
        }
    }
}

/// The authorization class an operation requires of its origin, checked
/// before any state is touched.
#[derive(Clone, Copy, PartialEq, Eq, Debug)]
pub enum AuthClass {
    /// The origin must be a signed account.
    Signed,
    /// The origin must be the runtime's privileged origin.
    Root,
    /// Any origin is accepted.
    Any,
}

/// Whether an origin satisfies an authorization class.
pub open spec fn authorized(class: AuthClass, origin: Origin) -> bool {
    match class {
        AuthClass::Signed => origin is Signed,
        AuthClass::Root => origin is Root,
        AuthClass::Any => true,
    }
}

/// Why a dispatch failed. The first three variants are infrastructure
/// errors, detected before any module logic runs and charged no weight; a
/// `Module` error is one of the module's own closed set of business errors,
/// identified as (module, variant) by the type `E` of the module it came
/// from.
#[derive(Clone, Copy, PartialEq, Eq, Debug)]
pub enum DispatchError<E> {
    /// No operation of the module has the given index.
    UnknownOperation,
    /// The origin does not satisfy the operation's authorization class.
    BadOrigin,
    /// The payload does not decode against the operation's argument type.
    CannotDecode,
    /// The operation's business logic reported one of its declared errors.
    Module(E),
}

/// Requires the origin to be a signed account, as an operation whose
/// authorization class is `Signed` does before touching any state.
pub fn ensure_signed<E>(origin: Origin) -> (r: Result<AccountId, DispatchError<E>>)
    ensures
        match origin {
            Origin::Signed(who) => r == Ok::<AccountId, DispatchError<E>>(who),
            _ => r == Err::<AccountId, DispatchError<E>>(DispatchError::BadOrigin),
        },
{
    match origin {
        Origin::Signed(who) => Ok(who),
        _ => Err(DispatchError::BadOrigin),
    }
}

/// Checks an origin against an authorization class.
pub fn check_authorization<E>(class: AuthClass, origin: Origin) -> (r: Result<
    (),
    DispatchError<E>,
>)
    ensures
        r is Ok <==> authorized(class, origin),
        r is Err ==> r == Err::<(), DispatchError<E>>(DispatchError::BadOrigin),
{
    match class {
        AuthClass::Signed => match origin {
            Origin::Signed(_) => Ok(()),
            _ => Err(DispatchError::BadOrigin),
        },
        AuthClass::Root => match origin {
            Origin::Root => Ok(()),
            _ => Err(DispatchError::BadOrigin),
        },
        AuthClass::Any => Ok(()),
    }
}

/// A metering account after charging it a weight: saturating, so the runtime
/// sees a full budget rather than a wrapped one if a block ever overflows.
pub open spec fn charged(meter: Weight, w: Weight) -> Weight {
    if meter + w <= u64::MAX {
        (meter + w) as Weight
    } else {
        u64::MAX as Weight
    }
}

/// Reports a consumed weight to the runtime's metering account.
pub fn charge_weight(meter: &mut Weight, w: Weight)
    ensures
        *final(meter) == charged(*old(meter), w),
{
    if *meter <= u64::MAX - w {
        *meter = *meter + w;
    } else {
        *meter = u64::MAX;
    }
}

} // verus!
