//! The access-control laws of the registry's state machine, stated and
//! proved over the abstract transitions that the operations' contracts use.

use vstd::prelude::*;

use crate::registry::spec_owner;
use crate::registry::spec_register;
use crate::registry::spec_transfer;
use crate::registry::Principal;
use crate::registry::RegistryError;

verus! {

/// Uniqueness: once an identifier is registered, registering it again fails
/// with `AlreadyRegistered`, changes nothing, and the first owner stays.
pub proof fn register_is_unique(
    m: Map<Seq<char>, Principal>,
    id: Seq<char>,
    o1: Principal,
    o2: Principal,
)
    requires
        spec_register(m, id, o1).1 is Ok,
    ensures
        ({
            let m1 = spec_register(m, id, o1).0;
            &&& spec_register(m1, id, o2).1 == Err::<(), RegistryError>(
                RegistryError::AlreadyRegistered,
            )
            &&& spec_register(m1, id, o2).0 == m1
            &&& spec_owner(m1, id) == Ok::<Principal, RegistryError>(o1)
        }),
{
}

/// Read after register: once registering an identifier succeeds, the owner
/// lookup returns the registered principal.
pub proof fn owner_after_register(m: Map<Seq<char>, Principal>, id: Seq<char>, o: Principal)
    requires
        spec_register(m, id, o).1 is Ok,
    ensures
        spec_owner(spec_register(m, id, o).0, id) == Ok::<Principal, RegistryError>(o),
{
}

/// Owner-gated transfer: after an identifier is registered to `o`, a
/// transfer requested by any other principal fails with `NotAuthorized`,
/// changes nothing, and `o` stays the recorded owner.
pub proof fn transfer_needs_owner(
    m: Map<Seq<char>, Principal>,
    id: Seq<char>,
    o: Principal,
    attacker: Principal,
    target: Principal,
)
    requires
        attacker != o,
        spec_register(m, id, o).1 is Ok,
    ensures
        ({
            let m1 = spec_register(m, id, o).0;
            &&& spec_transfer(m1, id, attacker, target).1 == Err::<(), RegistryError>(
                RegistryError::NotAuthorized,
            )
            &&& spec_transfer(m1, id, attacker, target).0 == m1
            &&& spec_owner(m1, id) == Ok::<Principal, RegistryError>(o)
        }),
{
}

/// Transfer effect: after an identifier is registered to `o`, a transfer
/// requested by `o` succeeds and records `target` as the owner.
pub proof fn transfer_by_owner(
    m: Map<Seq<char>, Principal>,
    id: Seq<char>,
    o: Principal,
    target: Principal,
)
    requires
        spec_register(m, id, o).1 is Ok,
    ensures
        ({
            let m1 = spec_register(m, id, o).0;
            &&& spec_transfer(m1, id, o, target).1 is Ok
            &&& spec_owner(spec_transfer(m1, id, o, target).0, id) == Ok::<
                Principal,
                RegistryError,
            >(target)
        }),
{
}

/// Unregistered lookup: on an identifier that is not registered, both the
/// owner lookup and any transfer fail with `NotFound`, and the transfer
/// changes nothing.
pub proof fn unregistered_is_not_found(
    m: Map<Seq<char>, Principal>,
    id: Seq<char>,
    from: Principal,
    to: Principal,
)
    requires
        !m.contains_key(id),
    ensures
        spec_owner(m, id) == Err::<Principal, RegistryError>(RegistryError::NotFound),
        spec_transfer(m, id, from, to).1 == Err::<(), RegistryError>(RegistryError::NotFound),
        spec_transfer(m, id, from, to).0 == m,
{
}

/// Idempotent self-transfer: after an identifier is registered to `o`, a
/// transfer from `o` to `o` succeeds and leaves the whole state unchanged.
pub proof fn self_transfer_is_idempotent(m: Map<Seq<char>, Principal>, id: Seq<char>, o: Principal)
    requires
        spec_register(m, id, o).1 is Ok,
    ensures
        ({
            let m1 = spec_register(m, id, o).0;
            &&& spec_transfer(m1, id, o, o).1 is Ok
            &&& spec_transfer(m1, id, o, o).0 == m1
            &&& spec_owner(spec_transfer(m1, id, o, o).0, id) == Ok::<Principal, RegistryError>(o)
        }),
{
    let m1 = spec_register(m, id, o).0;
    assert(spec_transfer(m1, id, o, o).0 =~= m1);
}

} // verus!
