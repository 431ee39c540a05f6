use navinet::identity::{Event, IdentityRegistry};

#[test]
fn register_identity_works() {
    let mut registry = IdentityRegistry::new();

    registry.register_identity(1).expect("registration");

    assert_eq!(registry.events().last(), Some(&Event::IdentityRegistered { who: 1 }));
}

#[test]
fn register_identity_appends_one_event_per_call() {
    let mut registry = IdentityRegistry::new();
    registry.register_identity(1).expect("first");
    registry.register_identity(2).expect("second");
    assert_eq!(registry.events().len(), 2);
    assert_eq!(registry.events()[0], Event::IdentityRegistered { who: 1 });
    assert_eq!(registry.events()[1], Event::IdentityRegistered { who: 2 });
}
