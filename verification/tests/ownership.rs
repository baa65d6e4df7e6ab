use asset_registry::registry::Principal;
use asset_registry::registry::Registry;
use asset_registry::registry::RegistryError;

#[test]
fn test_register_asset() {
    let mut registry = Registry::new();

    let owner = Principal(1);
    let id = "asset1";

    registry.register(id, owner).unwrap();

    assert_eq!(registry.owner(id), Ok(owner));
}

#[test]
fn test_transfer_by_owner() {
    let mut registry = Registry::new();

    let owner1 = Principal(1);
    let owner2 = Principal(2);
    let id = "asset1";

    registry.register(id, owner1).unwrap();
    registry.transfer(id, owner1, owner2).unwrap();

    assert_eq!(registry.owner(id), Ok(owner2));
}

#[test]
#[should_panic]
fn test_transfer_by_attacker_fails() {
    let mut registry = Registry::new();

    let owner = Principal(1);
    let attacker = Principal(2);
    let new_owner = Principal(3);
    let id = "asset1";

    registry.register(id, owner).unwrap();
    registry.transfer(id, attacker, new_owner).unwrap();
}

#[test]
fn register_succeeds_on_fresh_id() {
    let mut registry = Registry::new();
    let alice = Principal(10);

    assert_eq!(registry.register("asset1", alice), Ok(()));
    assert_eq!(registry.owner("asset1"), Ok(alice));
}

#[test]
fn second_register_fails_and_keeps_first_owner() {
    let mut registry = Registry::new();
    let alice = Principal(10);
    let bob = Principal(11);

    assert_eq!(registry.register("asset1", alice), Ok(()));
    assert_eq!(
        registry.register("asset1", bob),
        Err(RegistryError::AlreadyRegistered)
    );
    assert_eq!(registry.owner("asset1"), Ok(alice));
}

#[test]
fn transfer_by_owner_records_target() {
    let mut registry = Registry::new();
    let alice = Principal(10);
    let bob = Principal(11);

    assert_eq!(registry.register("asset1", alice), Ok(()));
    assert_eq!(registry.transfer("asset1", alice, bob), Ok(()));
    assert_eq!(registry.owner("asset1"), Ok(bob));
}

#[test]
fn transfer_by_attacker_reports_not_authorized() {
    let mut registry = Registry::new();
    let alice = Principal(10);
    let eve = Principal(12);
    let bob = Principal(11);

    assert_eq!(registry.register("asset1", alice), Ok(()));
    assert_eq!(
        registry.transfer("asset1", eve, bob),
        Err(RegistryError::NotAuthorized)
    );
    assert_eq!(registry.owner("asset1"), Ok(alice));
}

#[test]
fn owner_of_unregistered_id_is_not_found() {
    let registry = Registry::new();

    assert_eq!(registry.owner("unknown"), Err(RegistryError::NotFound));
}

#[test]
fn transfer_of_unregistered_id_is_not_found() {
    let mut registry = Registry::new();
    let alice = Principal(10);
    let bob = Principal(11);

    assert_eq!(
        registry.transfer("unknown", alice, bob),
        Err(RegistryError::NotFound)
    );
    assert_eq!(registry.owner("unknown"), Err(RegistryError::NotFound));
}

#[test]
fn self_transfer_succeeds_and_keeps_owner() {
    let mut registry = Registry::new();
    let alice = Principal(10);

    assert_eq!(registry.register("asset1", alice), Ok(()));
    assert_eq!(registry.transfer("asset1", alice, alice), Ok(()));
    assert_eq!(registry.owner("asset1"), Ok(alice));
}

#[test]
fn identifiers_are_independent() {
    let mut registry = Registry::new();
    let alice = Principal(10);
    let bob = Principal(11);
    let carol = Principal(13);

    assert_eq!(registry.register("asset1", alice), Ok(()));
    assert_eq!(registry.register("asset2", carol), Ok(()));
    assert_eq!(registry.transfer("asset1", alice, bob), Ok(()));
    assert_eq!(registry.owner("asset1"), Ok(bob));
    assert_eq!(registry.owner("asset2"), Ok(carol));
    assert_eq!(
        registry.register("asset2", bob),
        Err(RegistryError::AlreadyRegistered)
    );
    assert_eq!(registry.owner("asset2"), Ok(carol));
}

#[test]
fn transfer_back_and_forth() {
    let mut registry = Registry::new();
    let alice = Principal(10);
    let bob = Principal(11);

    assert_eq!(registry.register("asset1", alice), Ok(()));
    assert_eq!(registry.transfer("asset1", alice, bob), Ok(()));
    assert_eq!(
        registry.transfer("asset1", alice, bob),
        Err(RegistryError::NotAuthorized)
    );
    assert_eq!(registry.transfer("asset1", bob, alice), Ok(()));
    assert_eq!(registry.owner("asset1"), Ok(alice));
}
