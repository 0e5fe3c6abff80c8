use pallets::dispatch::{DispatchError, Origin};
use pallets::parachutes::pallet::{Config, Nonces, Pallet};
use pallets::parachutes::types::{Error, Event, ParachuteDetails, ParachuteModel, ParachuteType, Rigger, SmjLoftDetails};

const MAX_RIGS: u32 = 100;

fn bytes(s: &str) -> Vec<u8> {
    s.as_bytes().to_vec()
}

fn new_loft() -> Pallet {
    Pallet::new(Config { max_rigs: MAX_RIGS })
}

fn module(e: Error) -> Result<(), DispatchError<Error>> {
    Err(DispatchError::Module(e))
}

/// Everything the loft's readers show for the accounts, identifiers and
/// ledger keys these tests use.
fn snapshot(p: &Pallet) -> String {
    let ids = ["8DG069", "8DG420", "8DC069", "8RV069", "a", "b", "c", "nope", "unknown", "new"];
    let mut out = format!(
        "{:?}",
        (p.in_service_nonce(), p.repair_nonce(), p.retire_nonce(), p.events())
    );
    for t in [ParachuteType::Drogue, ParachuteType::Main, ParachuteType::Reserve] {
        out.push_str(&format!("{:?}", p.rigged_nonce(t)));
        for n in 0..4u32 {
            out.push_str(&format!("{:?}", p.rigging_ledger(t, n)));
        }
    }
    for who in 0..10u64 {
        out.push_str(&format!("{:?}", p.riggers(who)));
    }
    for id in ids {
        let id = bytes(id);
        out.push_str(&format!("{:?}{:?}{:?}", p.drogues(&id), p.mains(&id), p.reserves(&id)));
    }
    for n in 0..4u32 {
        out.push_str(&format!("{:?}{:?}{:?}", p.in_service_ledger(n), p.repair_ledger(n), p.retire_ledger(n)));
    }
    out
}

/// The call is refused with `e`, and nothing the readers show changes.
fn assert_refused(p: &mut Pallet, call: impl FnOnce(&mut Pallet) -> Result<(), DispatchError<Error>>, e: Error) {
    let before = snapshot(p);
    assert_eq!(call(p), module(e));
    assert_eq!(snapshot(p), before);
}

/// A loft with rigger 1 certified Senior and a drogue, a main and a reserve in service.
fn loft_with_parachutes() -> Pallet {
    let mut p = new_loft();
    let owner = bytes("AK");
    let date = bytes("04/20/1969");
    assert_eq!(p.create_loft_id(Origin::Signed(1), 1), Ok(()));
    assert_eq!(p.set_rigger(Origin::Signed(1), 1, Rigger::Senior), Ok(()));
    assert_eq!(
        p.in_service(Origin::Signed(1), 1, ParachuteType::Drogue, owner.clone(), ParachuteModel::Drogue, bytes("8DG069"), date.clone()),
        Ok(())
    );
    assert_eq!(
        p.in_service(Origin::Signed(1), 1, ParachuteType::Main, owner.clone(), ParachuteModel::DC7, bytes("8DC069"), date.clone()),
        Ok(())
    );
    assert_eq!(
        p.in_service(Origin::Signed(1), 1, ParachuteType::Reserve, owner.clone(), ParachuteModel::MT1S, bytes("8RV069"), date.clone()),
        Ok(())
    );
    p
}

#[test]
fn create_loft_id() {
    let mut p = new_loft();

    // Create Loft ID
    assert_eq!(p.create_loft_id(Origin::Signed(1), 1), Ok(()));
    let events = p.events().len();
    assert_refused(&mut p, |p| p.create_loft_id(Origin::Signed(1), 1), Error::AlreadyARigger);
    assert_eq!(p.events().len(), events);

    // Test Storage
    let test_rigger = p.riggers(1).unwrap().rigger;
    assert_eq!(test_rigger, Rigger::Uncertified);

    // Last Event
    assert_eq!(p.last_event(), Some(&Event::NewRigger { who: 1 }));
}

#[test]
fn set_rigger() {
    let mut p = new_loft();

    assert_refused(&mut p, |p| p.set_rigger(Origin::Signed(1), 1, Rigger::Senior), Error::NoLoftId);
    assert!(p.riggers(1).is_none());
    assert_eq!(p.create_loft_id(Origin::Signed(1), 1), Ok(()));

    // Set Rigger::Senior
    assert_eq!(p.set_rigger(Origin::Signed(1), 1, Rigger::Senior), Ok(()));
    let test_rigger = p.riggers(1).unwrap().rigger;

    // Test Rigger::Senior
    assert_eq!(test_rigger, Rigger::Senior);

    // Set Rigger::Master
    assert_eq!(p.set_rigger(Origin::Signed(1), 1, Rigger::Master), Ok(()));

    // Test set Rigger::Master to Rigger::Master
    assert_refused(&mut p, |p| p.set_rigger(Origin::Signed(1), 1, Rigger::Master), Error::AlreadyARigger);
    assert_eq!(p.riggers(1).unwrap().rigger, Rigger::Master);

    // Last Event
    assert_eq!(p.last_event(), Some(&Event::RiggerChanged { who: 1, rigger: Rigger::Master }));
}

#[test]
fn in_service() {
    let mut p = new_loft();
    let parachute_owner = bytes("AK");
    let drogue_id = bytes("8DG069");
    let main_id = bytes("8DC069");
    let reserve_id = bytes("8RV069");
    let date = bytes("04/20/1969");

    assert_eq!(p.create_loft_id(Origin::Signed(1), 1), Ok(()));

    // Get Nonce for In Service Function Calls
    assert_eq!(p.in_service_nonce(), 0u32);

    // Test Permissions
    assert_refused(&mut p, |p| p.in_service(Origin::Signed(1), 1, ParachuteType::Drogue, parachute_owner.clone(), ParachuteModel::Drogue, drogue_id.clone(), date.clone()), Error::NotQualified);
    assert!(p.drogues(&drogue_id).is_none());
    assert_eq!(p.in_service_nonce(), 0u32);

    // Grant Permissions
    assert_eq!(p.set_rigger(Origin::Signed(1), 1, Rigger::Senior), Ok(()));

    // In-Service Drogue Parachute
    assert_eq!(
        p.in_service(Origin::Signed(1), 1, ParachuteType::Drogue, parachute_owner.clone(), ParachuteModel::Drogue, drogue_id.clone(), date.clone()),
        Ok(())
    );

    // Test In-Service Same Parachute
    assert_refused(&mut p, |p| p.in_service(Origin::Signed(1), 1, ParachuteType::Drogue, parachute_owner.clone(), ParachuteModel::Drogue, drogue_id.clone(), date.clone()), Error::ParachuteAlreadyExists);

    // Test In-Service Nonce After Function Call
    assert_eq!(p.in_service_nonce(), 1u32);

    // Test Rigger In-Servicing Metadata
    let in_service = *p.riggers(1).unwrap().in_service.get(0).unwrap();
    assert_eq!(in_service, 0u32);

    // Last Event
    assert_eq!(p.last_event(), Some(&Event::ParachuteInService { who: 1, parachute: drogue_id.clone() }));

    // In-Service Main Parachute
    assert_eq!(
        p.in_service(Origin::Signed(1), 1, ParachuteType::Main, parachute_owner.clone(), ParachuteModel::DC7, main_id.clone(), date.clone()),
        Ok(())
    );

    // Test In-Service Same Parachute
    assert_refused(&mut p, |p| p.in_service(Origin::Signed(1), 1, ParachuteType::Main, parachute_owner.clone(), ParachuteModel::DC7, main_id.clone(), date.clone()), Error::ParachuteAlreadyExists);

    // Get In-Service Nonce
    assert_eq!(p.in_service_nonce(), 2u32);

    // Test Rigger In-Servicing Metadata
    let in_service = *p.riggers(1).unwrap().in_service.get(1).unwrap();
    assert_eq!(in_service, 1u32);

    // Last Event
    assert_eq!(p.last_event(), Some(&Event::ParachuteInService { who: 1, parachute: main_id.clone() }));

    // In-Service Reserve Parachute
    assert_eq!(
        p.in_service(Origin::Signed(1), 1, ParachuteType::Reserve, parachute_owner.clone(), ParachuteModel::MT1S, reserve_id.clone(), date.clone()),
        Ok(())
    );

    // Test In-Service Same Parachute
    assert_refused(&mut p, |p| p.in_service(Origin::Signed(1), 1, ParachuteType::Reserve, parachute_owner.clone(), ParachuteModel::MT1S, reserve_id.clone(), date.clone()), Error::ParachuteAlreadyExists);

    // Test In-Service Nonce After Function Call
    assert_eq!(p.in_service_nonce(), 3u32);

    // Test Rigger In-Servicing MetaData
    let in_service = *p.riggers(1).unwrap().in_service.get(2).unwrap();
    assert_eq!(in_service, 2u32);

    // Last Event
    assert_eq!(p.last_event(), Some(&Event::ParachuteInService { who: 1, parachute: reserve_id.clone() }));
}

#[test]
fn rig() {
    let mut p = loft_with_parachutes();
    let drogue_id = bytes("8DG069");
    let main_id = bytes("8DC069");
    let reserve_id = bytes("8RV069");
    let date = bytes("04/20/1969");
    let location = bytes("04/20/1969");

    // Check Drogue Rigging Nonce
    assert_eq!(p.rigged_nonce(ParachuteType::Drogue), 0);

    // Rig Drogue
    assert_eq!(
        p.rig(Origin::Signed(1), 1, drogue_id.clone(), ParachuteType::Drogue, None, location.clone(), date.clone()),
        Ok(())
    );

    // Test Drogue Rigging Nonce After Function Call
    assert_eq!(p.rigged_nonce(ParachuteType::Drogue), 1);

    // Test Rigger Rigging Metadata
    assert_eq!(*p.riggers(1).unwrap().drogues_rigged.get(0).unwrap(), 0u32);

    // Test Drogue Rigging Metadata
    assert_eq!(*p.drogues(&drogue_id).unwrap().rigs.get(0).unwrap(), 0u32);

    // Last Event
    assert_eq!(p.last_event(), Some(&Event::ParachuteRigged { who: 1, parachute: drogue_id.clone() }));

    // Check Main Rigging Nonce
    assert_eq!(p.rigged_nonce(ParachuteType::Main), 0);

    // Rig Main
    assert_eq!(
        p.rig(Origin::Signed(1), 1, main_id.clone(), ParachuteType::Main, Some(drogue_id.clone()), location.clone(), date.clone()),
        Ok(())
    );

    // Test Main Rigging Nonce After Function Call
    assert_eq!(p.rigged_nonce(ParachuteType::Main), 1);

    // Test Rigger Rigging Metadata
    assert_eq!(*p.riggers(1).unwrap().mains_rigged.get(0).unwrap(), 0u32);

    // Test Main Parachute Rigging Metadata
    assert_eq!(*p.mains(&main_id).unwrap().rigs.get(0).unwrap(), 0u32);

    // Last Event
    assert_eq!(p.last_event(), Some(&Event::ParachuteRigged { who: 1, parachute: main_id.clone() }));

    // Check Reserve Rigging Nonce
    assert_eq!(p.rigged_nonce(ParachuteType::Reserve), 0);

    // Rig Reserve
    assert_eq!(
        p.rig(Origin::Signed(1), 1, reserve_id.clone(), ParachuteType::Reserve, None, location.clone(), date.clone()),
        Ok(())
    );

    // Test Reserve Rigging Nonce After Function Call
    assert_eq!(p.rigged_nonce(ParachuteType::Reserve), 1);

    // Test Rigger Rigging Metadata
    assert_eq!(*p.riggers(1).unwrap().reserves_rigged.get(0).unwrap(), 0u32);

    // Test Reserve Rigging Metadata
    assert_eq!(*p.reserves(&reserve_id).unwrap().rigs.get(0).unwrap(), 0u32);

    // Last Event
    assert_eq!(p.last_event(), Some(&Event::ParachuteRigged { who: 1, parachute: reserve_id.clone() }));
}

#[test]
fn repair() {
    let mut p = loft_with_parachutes();
    let drogue_id = bytes("8DG069");
    let main_id = bytes("8DC069");
    let reserve_id = bytes("8RV069");
    let date = bytes("04/20/1969");
    let repair = bytes("4x4 patch cell 7");

    // Check Drogue Repair Nonce
    assert_eq!(p.repair_nonce(), 0);

    // Repair Drogue
    assert_eq!(p.repair(Origin::Signed(1), 1, drogue_id.clone(), ParachuteType::Drogue, date.clone(), repair.clone()), Ok(()));

    // Check Rigger Repairs Metadata
    assert_eq!(*p.riggers(1).unwrap().repairs.get(0).unwrap(), 0u32);

    // Check Drogue Repair Metadata
    assert_eq!(*p.drogues(&drogue_id).unwrap().repairs.get(0).unwrap(), 0u32);

    // Test Repair Nonce After Function Call
    assert_eq!(p.repair_nonce(), 1);

    // Last Event
    assert_eq!(p.last_event(), Some(&Event::ParachuteRepaired { who: 1, parachute: drogue_id.clone() }));

    // Repair Main
    assert_eq!(p.repair(Origin::Signed(1), 1, main_id.clone(), ParachuteType::Main, date.clone(), repair.clone()), Ok(()));

    // Test Rigger Repairs Metadata
    assert_eq!(*p.riggers(1).unwrap().repairs.get(1).unwrap(), 1u32);

    // Test Main Repair Metadata
    assert_eq!(*p.mains(&main_id).unwrap().repairs.get(0).unwrap(), 1u32);

    // Test Repair Nonce After Function Call
    assert_eq!(p.repair_nonce(), 2);

    // Last Event
    assert_eq!(p.last_event(), Some(&Event::ParachuteRepaired { who: 1, parachute: main_id.clone() }));

    // Repair Reserve
    assert_eq!(p.repair(Origin::Signed(1), 1, reserve_id.clone(), ParachuteType::Reserve, date.clone(), repair.clone()), Ok(()));

    // Test Rigger Repairs Metadata
    assert_eq!(*p.riggers(1).unwrap().repairs.get(2).unwrap(), 2u32);

    // Test Reserve Repair Metadata
    assert_eq!(*p.reserves(&reserve_id).unwrap().repairs.get(0).unwrap(), 2u32);

    // Test Repair Nonce After Function Call
    assert_eq!(p.repair_nonce(), 3);

    // Last Event
    assert_eq!(p.last_event(), Some(&Event::ParachuteRepaired { who: 1, parachute: reserve_id.clone() }));
}

#[test]
fn retire() {
    let mut p = new_loft();
    let parachute_owner = bytes("AK");
    let drogue_id = bytes("8DG069");
    let drogue_id2 = bytes("8DG420");
    let main_id = bytes("8DC069");
    let reserve_id = bytes("8RV069");
    let date = bytes("04/20/1969");
    let location = bytes("04/20/1969");
    let repair = bytes("4x4 patch cell 7");

    assert_eq!(p.create_loft_id(Origin::Signed(1), 1), Ok(()));
    assert_eq!(p.set_rigger(Origin::Signed(1), 1, Rigger::Senior), Ok(()));
    assert_eq!(
        p.in_service(Origin::Signed(1), 1, ParachuteType::Drogue, parachute_owner.clone(), ParachuteModel::Drogue, drogue_id.clone(), date.clone()),
        Ok(())
    );
    assert_eq!(
        p.in_service(Origin::Signed(1), 1, ParachuteType::Drogue, parachute_owner.clone(), ParachuteModel::Drogue, drogue_id2.clone(), date.clone()),
        Ok(())
    );
    assert_eq!(
        p.in_service(Origin::Signed(1), 1, ParachuteType::Main, parachute_owner.clone(), ParachuteModel::DC7, main_id.clone(), date.clone()),
        Ok(())
    );
    assert_eq!(
        p.in_service(Origin::Signed(1), 1, ParachuteType::Reserve, parachute_owner.clone(), ParachuteModel::MT1S, reserve_id.clone(), date.clone()),
        Ok(())
    );

    // Check Retire Nonce
    assert_eq!(p.retire_nonce(), 0);

    // Retire Drogue
    assert_eq!(p.retire(Origin::Signed(1), 1, drogue_id.clone(), ParachuteType::Drogue, date.clone()), Ok(()));

    // Test Drogue Metadata
    let drogue_details = p.drogues(&drogue_id).unwrap();
    assert_eq!(drogue_details.retired, Some(0u32));
    assert_eq!(drogue_details.active, false);

    // Test Rigger Retires Metadata
    assert_eq!(*p.riggers(1).unwrap().retires.get(0).unwrap(), 0u32);

    // Test Retire Nonce After Function Call
    assert_eq!(p.retire_nonce(), 1);

    // Last Event
    assert_eq!(p.last_event(), Some(&Event::ParachuteRetired { who: 1, parachute: drogue_id.clone() }));

    // Test Rig Retired Drogue
    assert_refused(&mut p, |p| p.rig(Origin::Signed(1), 1, drogue_id.clone(), ParachuteType::Drogue, None, location.clone(), date.clone()), Error::ParachuteRetired);

    // Test Repair Retired Drogue
    assert_refused(&mut p, |p| p.repair(Origin::Signed(1), 1, drogue_id.clone(), ParachuteType::Drogue, date.clone(), repair.clone()), Error::ParachuteRetired);

    // Test Retire Retired Drogue
    assert_refused(&mut p, |p| p.retire(Origin::Signed(1), 1, drogue_id.clone(), ParachuteType::Drogue, date.clone()), Error::ParachuteRetired);

    // Test Rig Main with Retired Drogue
    assert_refused(&mut p, |p| p.rig(Origin::Signed(1), 1, main_id.clone(), ParachuteType::Main, Some(drogue_id.clone()), location.clone(), date.clone()), Error::DrogueRetired);

    // Retire Main
    assert_eq!(p.retire(Origin::Signed(1), 1, main_id.clone(), ParachuteType::Main, date.clone()), Ok(()));

    // Test Main Metadata
    let main_details = p.mains(&main_id).unwrap();
    assert_eq!(main_details.retired, Some(1u32));
    assert_eq!(main_details.active, false);

    // Test Rigger Retires Metadata
    assert_eq!(*p.riggers(1).unwrap().retires.get(1).unwrap(), 1u32);

    // Test Retire Nonce After Function Call
    assert_eq!(p.retire_nonce(), 2);

    // Last Event
    assert_eq!(p.last_event(), Some(&Event::ParachuteRetired { who: 1, parachute: main_id.clone() }));

    // Test Rig Retired Main
    assert_refused(&mut p, |p| p.rig(Origin::Signed(1), 1, main_id.clone(), ParachuteType::Main, Some(drogue_id2.clone()), location.clone(), date.clone()), Error::ParachuteRetired);

    // Test Repair Retired Main
    assert_refused(&mut p, |p| p.repair(Origin::Signed(1), 1, main_id.clone(), ParachuteType::Main, date.clone(), repair.clone()), Error::ParachuteRetired);

    // Test Retire Retired Main
    assert_refused(&mut p, |p| p.retire(Origin::Signed(1), 1, main_id.clone(), ParachuteType::Main, date.clone()), Error::ParachuteRetired);

    // Retire Reserve
    assert_eq!(p.retire(Origin::Signed(1), 1, reserve_id.clone(), ParachuteType::Reserve, date.clone()), Ok(()));

    // Test Reserve Metadata
    let reserve_details = p.reserves(&reserve_id).unwrap();
    assert_eq!(reserve_details.retired, Some(2u32));
    assert_eq!(reserve_details.active, false);

    // Test Rigger Retires Metadata
    assert_eq!(*p.riggers(1).unwrap().retires.get(2).unwrap(), 2u32);

    // Test Retires Nonce After Function Call
    assert_eq!(p.retire_nonce(), 3);

    // Last Event
    assert_eq!(p.last_event(), Some(&Event::ParachuteRetired { who: 1, parachute: reserve_id.clone() }));

    // Test Rig Retired Reserve
    assert_refused(&mut p, |p| p.rig(Origin::Signed(1), 1, reserve_id.clone(), ParachuteType::Reserve, None, location.clone(), date.clone()), Error::ParachuteRetired);

    // Test Repair Retire Reserve
    assert_refused(&mut p, |p| p.repair(Origin::Signed(1), 1, reserve_id.clone(), ParachuteType::Reserve, date.clone(), repair.clone()), Error::ParachuteRetired);

    // Test Retire Retired Reserve
    assert_refused(&mut p, |p| p.retire(Origin::Signed(1), 1, reserve_id.clone(), ParachuteType::Reserve, date.clone()), Error::ParachuteRetired);
}

// ----- scenarios of the benchmarks -----

#[test]
fn benchmark_create_loft_id() {
    let mut p = new_loft();
    assert_eq!(p.create_loft_id(Origin::Signed(7), 7), Ok(()));
    assert!(p.riggers(7).is_some());
}

#[test]
fn benchmark_set_rigger() {
    let mut p = new_loft();
    assert_eq!(p.create_loft_id(Origin::Signed(7), 7), Ok(()));
    assert_eq!(p.set_rigger(Origin::Signed(7), 7, Rigger::Senior), Ok(()));
    assert_eq!(p.riggers(7).unwrap().rigger, Rigger::Senior);
}

#[test]
fn benchmark_in_service() {
    let mut p = new_loft();
    assert_eq!(p.create_loft_id(Origin::Signed(7), 7), Ok(()));
    assert_eq!(p.set_rigger(Origin::Signed(7), 7, Rigger::Senior), Ok(()));
    assert_eq!(
        p.in_service(Origin::Signed(7), 7, ParachuteType::Drogue, bytes("AK"), ParachuteModel::Drogue, bytes("8DG069"), bytes("04/20/1969")),
        Ok(())
    );
    assert!(p.drogues(&bytes("8DG069")).is_some());
}

#[test]
fn benchmark_rig_main() {
    let mut p = new_loft();
    assert_eq!(p.create_loft_id(Origin::Signed(7), 7), Ok(()));
    assert_eq!(p.set_rigger(Origin::Signed(7), 7, Rigger::Senior), Ok(()));
    let date = bytes("04/20/1969");
    assert_eq!(
        p.in_service(Origin::Signed(7), 7, ParachuteType::Drogue, bytes("AK"), ParachuteModel::Drogue, bytes("8DG069"), date.clone()),
        Ok(())
    );
    assert_eq!(
        p.in_service(Origin::Signed(7), 7, ParachuteType::Main, bytes("AK"), ParachuteModel::DC7, bytes("8DC420"), date.clone()),
        Ok(())
    );
    assert_eq!(
        p.rig(Origin::Signed(7), 7, bytes("8DC420"), ParachuteType::Main, Some(bytes("8DG069")), bytes("AK"), date),
        Ok(())
    );
    assert!(p.rigging_ledger(ParachuteType::Main, 0).is_some());
}

#[test]
fn benchmark_repair_reserve() {
    let mut p = new_loft();
    assert_eq!(p.create_loft_id(Origin::Signed(7), 7), Ok(()));
    assert_eq!(p.set_rigger(Origin::Signed(7), 7, Rigger::Senior), Ok(()));
    let date = bytes("04/20/1969");
    assert_eq!(
        p.in_service(Origin::Signed(7), 7, ParachuteType::Reserve, bytes("AK"), ParachuteModel::MT1S, bytes("8RV069"), date.clone()),
        Ok(())
    );
    assert_eq!(
        p.repair(Origin::Signed(7), 7, bytes("8RV069"), ParachuteType::Reserve, date, bytes("4x4 hole cell 6 tail")),
        Ok(())
    );
    assert!(p.repair_ledger(0).is_some());
}

#[test]
fn benchmark_retire_drogue() {
    let mut p = new_loft();
    assert_eq!(p.create_loft_id(Origin::Signed(7), 7), Ok(()));
    assert_eq!(p.set_rigger(Origin::Signed(7), 7, Rigger::Senior), Ok(()));
    let date = bytes("04/20/1969");
    assert_eq!(
        p.in_service(Origin::Signed(7), 7, ParachuteType::Drogue, bytes("AK"), ParachuteModel::Drogue, bytes("8DG069"), date.clone()),
        Ok(())
    );
    assert_eq!(p.retire(Origin::Signed(7), 7, bytes("8DG069"), ParachuteType::Drogue, date), Ok(()));
    assert_eq!(p.drogues(&bytes("8DG069")).unwrap().active, false);
}

// ----- ledger records -----

#[test]
fn ledger_records_name_who_what_and_when() {
    let mut p = loft_with_parachutes();
    let rec = p.in_service_ledger(1).unwrap();
    assert_eq!(rec.who, 1);
    assert_eq!(rec.parachute, bytes("8DC069"));
    assert_eq!(rec.date, bytes("04/20/1969"));
    assert_eq!(
        p.mains(&bytes("8DC069")),
        Some(&ParachuteDetails {
            active: true,
            owner: bytes("AK"),
            model: ParachuteModel::DC7,
            in_service: 1,
            rigs: vec![],
            repairs: vec![],
            retired: None,
        })
    );

    assert_eq!(
        p.rig(Origin::Signed(1), 1, bytes("8DC069"), ParachuteType::Main, Some(bytes("8DG069")), bytes("Missoula"), bytes("05/01/1970")),
        Ok(())
    );
    let rig = p.rigging_ledger(ParachuteType::Main, 0).unwrap();
    assert_eq!(rig.who, 1);
    assert_eq!(rig.parachute, bytes("8DC069"));
    assert_eq!(rig.drogue, Some(bytes("8DG069")));
    assert_eq!(rig.location, bytes("Missoula"));
    assert_eq!(rig.date, bytes("05/01/1970"));
    assert!(p.rigging_ledger(ParachuteType::Drogue, 0).is_none());

    assert_eq!(p.repair(Origin::Signed(1), 1, bytes("8RV069"), ParachuteType::Reserve, bytes("d"), bytes("r")), Ok(()));
    let rep = p.repair_ledger(0).unwrap();
    assert_eq!((rep.who, rep.parachute.clone(), rep.date.clone(), rep.repair.clone()), (1, bytes("8RV069"), bytes("d"), bytes("r")));

    assert_eq!(p.retire(Origin::Signed(1), 1, bytes("8RV069"), ParachuteType::Reserve, bytes("e")), Ok(()));
    let ret = p.retire_ledger(0).unwrap();
    assert_eq!((ret.who, ret.parachute.clone(), ret.date.clone()), (1, bytes("8RV069"), bytes("e")));
}

#[test]
fn every_kept_key_leads_to_its_record() {
    let mut p = loft_with_parachutes();
    let d = bytes("8DG069");
    for _ in 0..3 {
        assert_eq!(p.rig(Origin::Signed(1), 1, d.clone(), ParachuteType::Drogue, None, bytes("l"), bytes("t")), Ok(()));
    }
    assert_eq!(p.repair(Origin::Signed(1), 1, d.clone(), ParachuteType::Drogue, bytes("t"), bytes("r")), Ok(()));
    assert_eq!(p.retire(Origin::Signed(1), 1, d.clone(), ParachuteType::Drogue, bytes("t")), Ok(()));
    let details = p.drogues(&d).unwrap();
    assert_eq!(details.rigs, vec![0, 1, 2]);
    for n in details.rigs.iter() {
        assert_eq!(p.rigging_ledger(ParachuteType::Drogue, *n).unwrap().parachute, d);
    }
    for n in details.repairs.iter() {
        assert_eq!(p.repair_ledger(*n).unwrap().parachute, d);
    }
    assert_eq!(p.retire_ledger(details.retired.unwrap()).unwrap().parachute, d);
    assert_eq!(p.in_service_ledger(details.in_service).unwrap().parachute, d);
    let loft = p.riggers(1).unwrap();
    assert_eq!(loft.drogues_rigged, vec![0, 1, 2]);
    assert_eq!(loft.in_service, vec![0, 1, 2]);
    for n in loft.drogues_rigged.iter() {
        assert_eq!(p.rigging_ledger(ParachuteType::Drogue, *n).unwrap().who, 1);
    }
}

// ----- refusals -----

#[test]
fn uncertified_rigger_rigs_drogues_and_mains_but_not_reserves() {
    let mut p = loft_with_parachutes();
    assert_eq!(p.create_loft_id(Origin::Signed(2), 2), Ok(()));
    assert_eq!(p.rig(Origin::Signed(2), 2, bytes("8DG069"), ParachuteType::Drogue, None, bytes("l"), bytes("t")), Ok(()));
    assert_eq!(
        p.rig(Origin::Signed(2), 2, bytes("8DC069"), ParachuteType::Main, Some(bytes("8DG069")), bytes("l"), bytes("t")),
        Ok(())
    );
    assert_refused(&mut p, |p| p.rig(Origin::Signed(2), 2, bytes("8RV069"), ParachuteType::Reserve, None, bytes("l"), bytes("t")), Error::NotQualified);
    assert_eq!(p.rigged_nonce(ParachuteType::Reserve), 0);
    assert_refused(&mut p, |p| p.repair(Origin::Signed(2), 2, bytes("8DG069"), ParachuteType::Drogue, bytes("t"), bytes("r")), Error::NotQualified);
    assert_refused(&mut p, |p| p.retire(Origin::Signed(2), 2, bytes("8DG069"), ParachuteType::Drogue, bytes("t")), Error::NotQualified);
    assert_eq!(p.riggers(2).unwrap().drogues_rigged, vec![0]);
    assert_eq!(p.riggers(2).unwrap().mains_rigged, vec![0]);
}

#[test]
fn main_needs_a_known_drogue() {
    let mut p = loft_with_parachutes();
    let events = p.events().len();
    assert_refused(&mut p, |p| p.rig(Origin::Signed(1), 1, bytes("8DC069"), ParachuteType::Main, Some(bytes("nope")), bytes("l"), bytes("t")), Error::DrogueDoesNotExist);
    assert_eq!(p.events().len(), events);
    assert_eq!(p.rigged_nonce(ParachuteType::Main), 0);
    assert!(p.mains(&bytes("8DC069")).unwrap().rigs.is_empty());
}

#[test]
fn same_identifier_may_serve_as_each_kind() {
    let mut p = loft_with_parachutes();
    assert_eq!(
        p.in_service(Origin::Signed(1), 1, ParachuteType::Main, bytes("AK"), ParachuteModel::CR360, bytes("8DG069"), bytes("t")),
        Ok(())
    );
    assert_eq!(p.mains(&bytes("8DG069")).unwrap().in_service, 3);
    assert_eq!(p.drogues(&bytes("8DG069")).unwrap().in_service, 0);
}

#[test]
fn unsigned_or_root_origin_is_refused() {
    let mut p = loft_with_parachutes();
    for origin in [Origin::Root, Origin::Unsigned] {
        assert_eq!(p.create_loft_id(origin, 5), Err(DispatchError::BadOrigin));
        assert_eq!(p.set_rigger(origin, 1, Rigger::Master), Err(DispatchError::BadOrigin));
        assert_eq!(
            p.in_service(origin, 1, ParachuteType::Drogue, bytes("AK"), ParachuteModel::Drogue, bytes("x"), bytes("t")),
            Err(DispatchError::BadOrigin)
        );
        assert_eq!(p.rig(origin, 1, bytes("8DG069"), ParachuteType::Drogue, None, bytes("l"), bytes("t")), Err(DispatchError::BadOrigin));
        assert_eq!(p.repair(origin, 1, bytes("8DG069"), ParachuteType::Drogue, bytes("t"), bytes("r")), Err(DispatchError::BadOrigin));
        assert_eq!(p.retire(origin, 1, bytes("8DG069"), ParachuteType::Drogue, bytes("t")), Err(DispatchError::BadOrigin));
    }
    assert!(p.riggers(5).is_none());
    assert_eq!(p.riggers(1).unwrap().rigger, Rigger::Senior);
    assert_eq!(p.rigged_nonce(ParachuteType::Drogue), 0);
    assert_eq!(p.repair_nonce(), 0);
    assert_eq!(p.retire_nonce(), 0);
    assert_eq!(p.in_service_nonce(), 3);
}

#[test]
fn signer_need_not_be_the_rigger() {
    let mut p = new_loft();
    assert_eq!(p.create_loft_id(Origin::Signed(9), 3), Ok(()));
    assert!(p.riggers(3).is_some());
    assert!(p.riggers(9).is_none());
}

// ----- nonces -----

#[test]
fn nonce_saturates_and_the_last_record_is_overwritten() {
    let mut p = new_loft();
    assert_eq!(p.create_loft_id(Origin::Signed(1), 1), Ok(()));
    assert_eq!(p.set_rigger(Origin::Signed(1), 1, Rigger::Master), Ok(()));
    p.set_nonces(Nonces {
        in_service: u32::MAX,
        repair: 0,
        retire: 0,
        drogues_rigged: 0,
        mains_rigged: 0,
        reserves_rigged: 0,
    });
    assert_eq!(
        p.in_service(Origin::Signed(1), 1, ParachuteType::Drogue, bytes("AK"), ParachuteModel::Drogue, bytes("A"), bytes("t")),
        Ok(())
    );
    assert_eq!(p.in_service_nonce(), u32::MAX);
    assert_eq!(
        p.in_service(Origin::Signed(1), 1, ParachuteType::Drogue, bytes("AK"), ParachuteModel::Drogue, bytes("B"), bytes("t")),
        Ok(())
    );
    assert_eq!(p.in_service_nonce(), u32::MAX);
    assert_eq!(p.drogues(&bytes("A")).unwrap().in_service, u32::MAX);
    assert_eq!(p.in_service_ledger(u32::MAX).unwrap().parachute, bytes("B"));
    assert_eq!(p.riggers(1).unwrap().in_service, vec![u32::MAX, u32::MAX]);
}

#[test]
fn repair_nonce_is_shared_by_all_kinds() {
    let mut p = loft_with_parachutes();
    assert_eq!(p.repair(Origin::Signed(1), 1, bytes("8RV069"), ParachuteType::Reserve, bytes("t"), bytes("r")), Ok(()));
    assert_eq!(p.repair(Origin::Signed(1), 1, bytes("8DG069"), ParachuteType::Drogue, bytes("t"), bytes("r")), Ok(()));
    assert_eq!(p.reserves(&bytes("8RV069")).unwrap().repairs, vec![0]);
    assert_eq!(p.drogues(&bytes("8DG069")).unwrap().repairs, vec![1]);
    assert_eq!(p.repair_nonce(), 2);
}

// ----- loading storage -----

#[test]
fn loaded_storage_is_used_as_is() {
    let mut p = new_loft();
    p.insert_loft(4, SmjLoftDetails {
        rigger: Rigger::Master,
        in_service: vec![],
        drogues_rigged: vec![],
        mains_rigged: vec![],
        reserves_rigged: vec![],
        repairs: vec![],
        retires: vec![8],
    });
    p.insert_parachute(ParachuteType::Reserve, bytes("R1"), ParachuteDetails {
        active: false,
        owner: bytes("AK"),
        model: ParachuteModel::MT1S,
        in_service: 2,
        rigs: vec![],
        repairs: vec![],
        retired: Some(8),
    });
    assert_refused(&mut p, |p| p.rig(Origin::Signed(4), 4, bytes("R1"), ParachuteType::Reserve, None, bytes("l"), bytes("t")), Error::ParachuteRetired);
    assert_eq!(p.set_rigger(Origin::Signed(4), 4, Rigger::Senior), Ok(()));
    assert_eq!(p.riggers(4).unwrap().retires, vec![8]);
    let events = p.take_events();
    assert_eq!(events, vec![Event::RiggerChanged { who: 4, rigger: Rigger::Senior }]);
    assert!(p.last_event().is_none());
    assert_eq!(p.config(), Config { max_rigs: MAX_RIGS });
}

// ----- which calls run to an outcome -----

#[test]
fn calls_that_cannot_run_are_recognised() {
    let p = loft_with_parachutes();
    // no loft for account 5
    assert!(!p.in_service_runs(5, ParachuteType::Drogue, &bytes("new")));
    assert!(p.in_service_runs(1, ParachuteType::Drogue, &bytes("new")));
    // a main must name a drogue
    assert!(!p.rig_runs(1, &bytes("8DC069"), ParachuteType::Main, &None));
    assert!(p.rig_runs(1, &bytes("8DC069"), ParachuteType::Main, &Some(bytes("8DG069"))));
    // an unknown drogue is refused before the main is looked up
    assert!(p.rig_runs(1, &bytes("unknown"), ParachuteType::Main, &Some(bytes("nope"))));
    // the parachute to rig, repair or retire must be registered
    assert!(!p.rig_runs(1, &bytes("unknown"), ParachuteType::Drogue, &None));
    assert!(!p.repair_runs(1, &bytes("unknown"), ParachuteType::Reserve));
    assert!(!p.retire_runs(1, &bytes("unknown"), ParachuteType::Main));
    assert!(p.repair_runs(1, &bytes("8RV069"), ParachuteType::Reserve));
    assert!(p.retire_runs(1, &bytes("8DC069"), ParachuteType::Main));
}

#[test]
fn full_key_lists_cannot_grow() {
    let mut p = Pallet::new(Config { max_rigs: 2 });
    assert_eq!(p.create_loft_id(Origin::Signed(1), 1), Ok(()));
    assert_eq!(p.set_rigger(Origin::Signed(1), 1, Rigger::Master), Ok(()));
    for id in ["a", "b"] {
        assert!(p.in_service_runs(1, ParachuteType::Drogue, &bytes(id)));
        assert_eq!(
            p.in_service(Origin::Signed(1), 1, ParachuteType::Drogue, bytes("AK"), ParachuteModel::Drogue, bytes(id), bytes("t")),
            Ok(())
        );
    }
    assert!(!p.in_service_runs(1, ParachuteType::Drogue, &bytes("c")));
    // refused calls still run: the refusal comes before the full list matters
    assert!(p.in_service_runs(1, ParachuteType::Drogue, &bytes("a")));
    assert!(p.rig_runs(1, &bytes("a"), ParachuteType::Drogue, &None));
    assert_eq!(p.rig(Origin::Signed(1), 1, bytes("a"), ParachuteType::Drogue, None, bytes("l"), bytes("t")), Ok(()));
    assert_eq!(p.rig(Origin::Signed(1), 1, bytes("a"), ParachuteType::Drogue, None, bytes("l"), bytes("t")), Ok(()));
    assert!(!p.rig_runs(1, &bytes("a"), ParachuteType::Drogue, &None));
    assert!(!p.rig_runs(1, &bytes("b"), ParachuteType::Drogue, &None));
}

#[test]
fn retired_parachute_stays_retired_over_later_calls() {
    let mut p = loft_with_parachutes();
    let d = bytes("8DG069");
    assert_eq!(p.retire(Origin::Signed(1), 1, d.clone(), ParachuteType::Drogue, bytes("t")), Ok(()));
    // later calls of every kind
    assert_eq!(p.create_loft_id(Origin::Signed(2), 2), Ok(()));
    assert_eq!(p.set_rigger(Origin::Signed(2), 2, Rigger::Master), Ok(()));
    assert_eq!(p.repair(Origin::Signed(2), 2, bytes("8RV069"), ParachuteType::Reserve, bytes("t"), bytes("r")), Ok(()));
    assert_refused(&mut p, |p| p.in_service(Origin::Signed(2), 2, ParachuteType::Drogue, bytes("AK"), ParachuteModel::Drogue, bytes("8DG069"), bytes("t")), Error::ParachuteAlreadyExists);
    assert_refused(&mut p, |p| p.rig(Origin::Signed(2), 2, bytes("8DG069"), ParachuteType::Drogue, None, bytes("l"), bytes("t")), Error::ParachuteRetired);
    assert_refused(&mut p, |p| p.rig(Origin::Signed(2), 2, bytes("8DC069"), ParachuteType::Main, Some(bytes("8DG069")), bytes("l"), bytes("t")), Error::DrogueRetired);
    assert_refused(&mut p, |p| p.repair(Origin::Signed(2), 2, bytes("8DG069"), ParachuteType::Drogue, bytes("t"), bytes("r")), Error::ParachuteRetired);
    assert_refused(&mut p, |p| p.retire(Origin::Signed(2), 2, bytes("8DG069"), ParachuteType::Drogue, bytes("t")), Error::ParachuteRetired);
    let details = p.drogues(&d).unwrap();
    assert_eq!(details.active, false);
    assert_eq!(details.retired, Some(0));
}
