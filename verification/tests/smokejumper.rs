use pallets::dispatch::{DispatchError, Origin};
use pallets::smokejumper::pallet::{Config, Pallet};
use pallets::smokejumper::types::{Error, Event, GasAction, Smokejumper, GAS_AMOUNT};

fn bytes(s: &str) -> Vec<u8> {
    s.as_bytes().to_vec()
}

/// Everything the readers show for the accounts these tests use.
fn snapshot(p: &Pallet) -> String {
    let mut out = format!("{:?}{:?}", p.events(), p.gas_actions());
    for who in 0..10u64 {
        out.push_str(&format!("{:?}", p.smokejumpers(who)));
    }
    out
}

/// The call is refused with `e`, and nothing the readers show changes.
fn assert_refused(p: &mut Pallet, call: impl FnOnce(&mut Pallet) -> Result<(), DispatchError<Error>>, e: Error) {
    let before = snapshot(p);
    assert_eq!(call(p), Err(DispatchError::Module(e)));
    assert_eq!(snapshot(p), before);
}

fn new_pallet() -> Pallet {
    Pallet::new(Config { max_length: 32 })
}

#[test]
fn create_smj() {
    let mut p = new_pallet();
    let bounded_name = bytes("Skeebo");

    assert!(p.smokejumpers(1).is_none());

    // Create SMJ
    assert_eq!(p.create_smj(Origin::Signed(1), 1, bounded_name.clone()), Ok(()));

    // Check
    assert!(p.smokejumpers(1).is_some());
    let gas = p.gas_actions().len();
    assert_refused(&mut p, |p| p.create_smj(Origin::Signed(1), 1, bounded_name.clone()), Error::SmjAlreadyCreated);
    assert_eq!(p.gas_actions().len(), gas);

    // The new account was issued its gas
    assert_eq!(p.gas_actions(), &vec![GasAction::Issue { who: 1, amount: 420_000_000_000_000 }]);
    assert_eq!(p.last_event(), Some(&Event::SmjCreated { smj: bounded_name }));
}

#[test]
fn change_name() {
    let mut p = new_pallet();
    let bounded_name = bytes("Skeebo");
    let new_bounded = bytes("Big Ern");

    // Create SMJ
    assert_eq!(p.create_smj(Origin::Signed(1), 1, bounded_name.clone()), Ok(()));

    let test_data = p.smokejumpers(1).unwrap();
    assert_eq!(test_data.name, bounded_name.clone());

    // Change name
    assert_eq!(p.change_name(Origin::Signed(1), 1, new_bounded.clone()), Ok(()));

    // Check
    let new_data = p.smokejumpers(1).unwrap();
    assert_eq!(new_data.name, new_bounded.clone());

    assert_refused(&mut p, |p| p.change_name(Origin::Signed(1), 2, new_bounded.clone()), Error::SmjDoesNotExist);
    assert!(p.smokejumpers(2).is_none());
}

#[test]
fn swap_address() {
    let mut p = new_pallet();
    let bounded_name = bytes("Skeebo");

    // Create SMJ & Swap data to new address
    assert_eq!(p.create_smj(Origin::Signed(1), 1, bounded_name.clone()), Ok(()));
    assert_eq!(p.swap_address(Origin::Signed(1), 1, 2), Ok(()));

    // Check balance operations: gas issued to the new address, the old one burnt down
    assert_eq!(
        p.gas_actions(),
        &vec![
            GasAction::Issue { who: 1, amount: 420_000_000_000_000 },
            GasAction::Issue { who: 2, amount: 420_000_000_000_000 },
            GasAction::BurnAll { who: 1 },
        ]
    );

    // Check data
    let new_smj = p.smokejumpers(2).unwrap();
    assert_eq!(new_smj.name, bounded_name.clone());
}

#[test]
fn swap_leaves_placeholder_and_reports_moved_name() {
    let mut p = new_pallet();
    assert_eq!(p.create_smj(Origin::Signed(1), 1, bytes("Skeebo")), Ok(()));
    assert_eq!(p.swap_address(Origin::Signed(1), 1, 2), Ok(()));
    assert_eq!(p.smokejumpers(1), Some(&Smokejumper { name: bytes("old_id_dont_use") }));
    assert_eq!(p.last_event(), Some(&Event::IdSwap { smj: bytes("Skeebo") }));
}

#[test]
fn old_address_is_never_used_again() {
    let mut p = new_pallet();
    assert_eq!(p.create_smj(Origin::Signed(1), 1, bytes("Skeebo")), Ok(()));
    assert_eq!(p.swap_address(Origin::Signed(1), 1, 2), Ok(()));
    assert_refused(&mut p, |p| p.create_smj(Origin::Signed(1), 1, bytes("Other")), Error::SmjAlreadyCreated);
    assert_eq!(p.create_smj(Origin::Signed(3), 3, bytes("Third")), Ok(()));
    assert_refused(&mut p, |p| p.swap_address(Origin::Signed(3), 3, 1), Error::AlreadySmj);
    assert_eq!(p.smokejumpers(3).unwrap().name, bytes("Third"));
}

#[test]
fn swap_refusals() {
    let mut p = new_pallet();
    assert_eq!(p.create_smj(Origin::Signed(1), 1, bytes("A")), Ok(()));
    assert_eq!(p.create_smj(Origin::Signed(2), 2, bytes("B")), Ok(()));
    let events = p.events().len();
    assert_refused(&mut p, |p| p.swap_address(Origin::Signed(1), 1, 2), Error::AlreadySmj);
    assert_refused(&mut p, |p| p.swap_address(Origin::Signed(1), 1, 1), Error::AlreadySmj);
    assert_refused(&mut p, |p| p.swap_address(Origin::Signed(1), 5, 6), Error::SmjDoesNotExist);
    assert_eq!(p.events().len(), events);
    assert_eq!(p.gas_actions().len(), 2);
    assert_eq!(p.smokejumpers(1).unwrap().name, bytes("A"));
    assert_eq!(p.smokejumpers(2).unwrap().name, bytes("B"));
}

#[test]
fn unsigned_or_root_origin_is_refused_by_smokejumper() {
    let mut p = new_pallet();
    assert_eq!(p.create_smj(Origin::Root, 1, bytes("A")), Err(DispatchError::BadOrigin));
    assert_eq!(p.create_smj(Origin::Unsigned, 1, bytes("A")), Err(DispatchError::BadOrigin));
    assert!(p.smokejumpers(1).is_none());
    assert_eq!(p.create_smj(Origin::Signed(1), 1, bytes("A")), Ok(()));
    assert_eq!(p.change_name(Origin::Root, 1, bytes("B")), Err(DispatchError::BadOrigin));
    assert_eq!(p.swap_address(Origin::Unsigned, 1, 2), Err(DispatchError::BadOrigin));
    assert_eq!(p.smokejumpers(1).unwrap().name, bytes("A"));
    assert!(p.smokejumpers(2).is_none());
}

#[test]
fn gas_amount_and_draining() {
    assert_eq!(GAS_AMOUNT, 420_000_000_000_000u128);
    let mut p = new_pallet();
    assert_eq!(p.create_smj(Origin::Signed(1), 7, bytes("A")), Ok(()));
    assert_eq!(p.change_name(Origin::Signed(1), 7, bytes("B")), Ok(()));
    assert_eq!(p.take_gas_actions(), vec![GasAction::Issue { who: 7, amount: GAS_AMOUNT }]);
    assert!(p.gas_actions().is_empty());
    assert_eq!(
        p.take_events(),
        vec![Event::SmjCreated { smj: bytes("A") }, Event::NameChanged { smj: bytes("B") }]
    );
    assert!(p.events().is_empty());
    assert_eq!(p.config(), Config { max_length: 32 });
}

#[test]
fn benchmark_smokejumper_calls() {
    let mut p = new_pallet();
    assert_eq!(p.create_smj(Origin::Signed(1), 1, bytes("Ernie")), Ok(()));
    assert!(p.smokejumpers(1).is_some());
    assert_eq!(p.change_name(Origin::Signed(1), 1, bytes("Skeebo")), Ok(()));
    assert_eq!(p.smokejumpers(1).unwrap().name, bytes("Skeebo"));
    p.insert_smokejumper(9, Smokejumper { name: bytes("Loaded") });
    assert_eq!(p.swap_address(Origin::Signed(1), 1, 2), Ok(()));
    assert!(p.smokejumpers(2).is_some());
    assert_eq!(p.smokejumpers(9).unwrap().name, bytes("Loaded"));
}

#[test]
fn placeholder_must_fit_the_name_bound() {
    let mut p = Pallet::new(Config { max_length: 14 });
    assert_eq!(p.create_smj(Origin::Signed(1), 1, bytes("A")), Ok(()));
    assert!(!p.swap_address_runs(1, 2));
    assert!(p.swap_address_runs(1, 1));
    assert!(p.swap_address_runs(3, 4));
    let q = Pallet::new(Config { max_length: 15 });
    assert!(q.swap_address_runs(1, 2));
}
