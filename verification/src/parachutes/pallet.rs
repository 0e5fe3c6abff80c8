use std::collections::HashMap;
use vstd::prelude::*;

use crate::bytes::copy_bytes;
use crate::dispatch::{bump, ensure_signed, lift, lift_result, next_nonce, DispatchError, Origin};
use crate::views::{lemma_view_map_insert, lemma_view_seq_push, view_map, view_seq};
use super::registry::ParachuteRegistry;
use super::spec::{PalletView, StoreView};
use super::types::{
    qualified, Error, Event, InServiceDetails, InServiceView, LoftView, ParachuteDetails,
    ParachuteModel, ParachuteType, ParachuteView, RepairDetails, RepairView, RetireDetails,
    RetireView, Rigger, RiggingDetails, RiggingView, SmjLoftDetails, opt_bytes_view,
};

verus! {

broadcast use vstd::std_specs::hash::group_hash_axioms;

/// The runtime's constants for the loft.
#[derive(Clone, Copy, Debug, PartialEq, Eq, Structural)]
pub struct Config {
    /// Bound on every list of ledger keys that a loft or a parachute keeps.
    pub max_rigs: u32,
}

/// The next key of every ledger.
#[derive(Clone, Copy, Debug, PartialEq, Eq, Structural)]
pub struct Nonces {
    pub in_service: u32,
    pub repair: u32,
    pub retire: u32,
    pub drogues_rigged: u32,
    pub mains_rigged: u32,
    pub reserves_rigged: u32,
}

/// The parachutes of one kind with their rigging ledger.
pub struct ParachuteStore {
    parachutes: ParachuteRegistry,
    rigged: HashMap<u32, RiggingDetails>,
    rigged_nonce: u32,
}

impl View for ParachuteStore {
    type V = StoreView;

    closed spec fn view(&self) -> StoreView {
        StoreView {
            parachutes: self.parachutes@,
            rigged: view_map(self.rigged@),
            rigged_nonce: self.rigged_nonce,
        }
    }
}

impl ParachuteStore {
    pub closed spec fn wf(&self) -> bool {
        self.parachutes.wf()
    }

    fn new() -> (r: Self)
        ensures
            r.wf(),
            r@ == (StoreView { parachutes: Map::empty(), rigged: Map::empty(), rigged_nonce: 0 }),
    {
        let r = ParachuteStore { parachutes: ParachuteRegistry::new(), rigged: HashMap::new(), rigged_nonce: 0 };
        assert(view_map(r.rigged@) =~= Map::<u32, RiggingView>::empty());
        r
    }

    fn record_rig(
        &mut self,
        who: u64,
        id: &Vec<u8>,
        drogue: Option<Vec<u8>>,
        location: Vec<u8>,
        date: Vec<u8>,
    ) -> (n: u32)
        requires
            old(self).wf(),
            old(self)@.parachutes.contains_key(id@),
        ensures
            final(self).wf(),
            n == old(self)@.rigged_nonce,
            final(self)@ == (StoreView {
                parachutes: old(self)@.parachutes.insert(
                    id@,
                    ParachuteView { rigs: old(self)@.parachutes[id@].rigs.push(n), ..old(self)@.parachutes[id@] },
                ),
                rigged: old(self)@.rigged.insert(n, RiggingView {
                    who,
                    parachute: id@,
                    drogue: opt_bytes_view(drogue),
                    location: location@,
                    date: date@,
                }),
                rigged_nonce: bump(n),
            }),
    {
        let n = self.rigged_nonce;
        let rec = RiggingDetails { who, parachute: copy_bytes(id), drogue, location, date };
        proof { lemma_view_map_insert(self.rigged@, n, rec); }
        self.rigged.insert(n, rec);
        self.parachutes.push_rig(id, n);
        self.rigged_nonce = next_nonce(n);
        n
    }
}

/// The loft's storage: smokejumpers' loft details, the three parachute
/// registries with their rigging ledgers, the in-service, repair and retire
/// ledgers with their nonces, and the events deposited so far.
pub struct Pallet {
    config: Config,
    riggers: HashMap<u64, SmjLoftDetails>,
    in_service: HashMap<u32, InServiceDetails>,
    in_service_nonce: u32,
    repairs: HashMap<u32, RepairDetails>,
    repair_nonce: u32,
    retires: HashMap<u32, RetireDetails>,
    retire_nonce: u32,
    drogues: ParachuteStore,
    mains: ParachuteStore,
    reserves: ParachuteStore,
    events: Vec<Event>,
}

impl View for Pallet {
    type V = PalletView;

    closed spec fn view(&self) -> PalletView {
        PalletView {
            max_rigs: self.config.max_rigs,
            riggers: view_map(self.riggers@),
            in_service: view_map(self.in_service@),
            in_service_nonce: self.in_service_nonce,
            repairs: view_map(self.repairs@),
            repair_nonce: self.repair_nonce,
            retires: view_map(self.retires@),
            retire_nonce: self.retire_nonce,
            drogues: self.drogues@,
            mains: self.mains@,
            reserves: self.reserves@,
            events: view_seq(self.events@),
        }
    }
}

impl Pallet {
    /// The storage is well formed: each registry keeps its identifiers unique.
    pub closed spec fn wf(&self) -> bool {
        &&& self.drogues.wf()
        &&& self.mains.wf()
        &&& self.reserves.wf()
    }

    /// Empty storage under the given runtime constants.
    pub fn new(config: Config) -> (r: Self)
        ensures
            r.wf(),
            r@ == PalletView::initial(config.max_rigs),
    {
        let r = Pallet {
            config,
            riggers: HashMap::new(),
            in_service: HashMap::new(),
            in_service_nonce: 0,
            repairs: HashMap::new(),
            repair_nonce: 0,
            retires: HashMap::new(),
            retire_nonce: 0,
            drogues: ParachuteStore::new(),
            mains: ParachuteStore::new(),
            reserves: ParachuteStore::new(),
            events: Vec::new(),
        };
        assert(view_map(r.riggers@) =~= Map::<u64, LoftView>::empty());
        assert(view_map(r.in_service@) =~= Map::<u32, InServiceView>::empty());
        assert(view_map(r.repairs@) =~= Map::<u32, RepairView>::empty());
        assert(view_map(r.retires@) =~= Map::<u32, RetireView>::empty());
        assert(view_seq(r.events@) =~= Seq::<super::types::EventView>::empty());
        r
    }

    fn store(&self, t: ParachuteType) -> (r: &ParachuteStore)
        requires
            self.wf(),
        ensures
            r.wf(),
            r@ == self@.store(t),
    {
        match t {
            ParachuteType::Drogue => &self.drogues,
            ParachuteType::Main => &self.mains,
            ParachuteType::Reserve => &self.reserves,
        }
    }

    fn deposit_event(&mut self, e: Event)
        ensures
            final(self).wf() == old(self).wf(),
            final(self)@ == (PalletView { events: old(self)@.events.push(e@), ..old(self)@ }),
    {
        proof { lemma_view_seq_push(self.events@, e); }
        self.events.push(e);
    }

    fn rigger_of(&self, who: u64) -> (r: Rigger)
        requires
            self@.riggers.contains_key(who),
        ensures
            r == self@.riggers[who].rigger,
    {
        self.riggers.get(&who).unwrap().rigger
    }

    /// Stores `loft` as the loft details of `who`, replacing any there.
    pub fn insert_loft(&mut self, who: u64, loft: SmjLoftDetails)
        ensures
            final(self).wf() == old(self).wf(),
            final(self)@ == (PalletView { riggers: old(self)@.riggers.insert(who, loft@), ..old(self)@ }),
    {
        proof { lemma_view_map_insert(self.riggers@, who, loft); }
        self.riggers.insert(who, loft);
    }

    fn take_loft(&mut self, who: u64) -> (loft: SmjLoftDetails)
        requires
            old(self)@.riggers.contains_key(who),
        ensures
            final(self).wf() == old(self).wf(),
            loft@ == old(self)@.riggers[who],
            final(self).riggers@ == old(self).riggers@.remove(who),
            final(self)@.riggers == old(self)@.riggers.remove(who),
            final(self)@ == (PalletView { riggers: old(self)@.riggers.remove(who), ..old(self)@ }),
    {
        let loft = self.riggers.remove(&who).unwrap();
        assert(view_map(self.riggers@) =~= view_map(old(self).riggers@).remove(who));
        loft
    }

    fn empty_loft() -> (l: SmjLoftDetails)
        ensures
            l@ == LoftView::fresh(),
    {
        let l = SmjLoftDetails {
            rigger: Rigger::Uncertified,
            in_service: Vec::new(),
            drogues_rigged: Vec::new(),
            mains_rigged: Vec::new(),
            reserves_rigged: Vec::new(),
            repairs: Vec::new(),
            retires: Vec::new(),
        };
        assert(l@ =~= LoftView::fresh());
        l
    }

    /// Creates the loft details of smokejumper `new_smj`: uncertified, with no
    /// records. Refused with `AlreadyARigger` when `new_smj` has a loft.
    pub fn do_create_loft_id(&mut self, new_smj: u64) -> (r: Result<(), Error>)
        requires
            old(self).wf(),
        ensures
            final(self).wf(),
            final(self)@ == old(self)@.create_loft_id(new_smj).0,
            r == old(self)@.create_loft_id(new_smj).1,
            r is Err ==> final(self)@ == old(self)@,
    {
        if self.riggers.contains_key(&new_smj) {
            return Err(Error::AlreadyARigger);
        }
        let ghost pre = self@;
        self.insert_loft(new_smj, Self::empty_loft());
        self.deposit_event(Event::NewRigger { who: new_smj });
        assert(self@ =~= pre.create_loft_id(new_smj).0);
        Ok(())
    }

    /// Changes the certification of smokejumper `smj` to `rigger`. Refused
    /// with `NoLoftId` when `smj` has no loft, and with `AlreadyARigger` when
    /// it holds that certification already.
    pub fn do_set_rigger(&mut self, smj: u64, rigger: Rigger) -> (r: Result<(), Error>)
        requires
            old(self).wf(),
        ensures
            final(self).wf(),
            final(self)@ == old(self)@.set_rigger(smj, rigger).0,
            r == old(self)@.set_rigger(smj, rigger).1,
            r is Err ==> final(self)@ == old(self)@,
    {
        if !self.riggers.contains_key(&smj) {
            return Err(Error::NoLoftId);
        }
        if self.rigger_of(smj) == rigger {
            return Err(Error::AlreadyARigger);
        }
        let ghost pre = self@;
        let mut loft = self.take_loft(smj);
        loft.rigger = rigger;
        self.insert_loft(smj, loft);
        self.deposit_event(Event::RiggerChanged { who: smj, rigger });
        assert(self@ =~= pre.set_rigger(smj, rigger).0);
        Ok(())
    }

    /// Registers parachute `id` of type `t` with details `d`; `id` must not be
    /// registered for that type yet.
    pub fn insert_parachute(&mut self, t: ParachuteType, id: Vec<u8>, d: ParachuteDetails)
        requires
            old(self).wf(),
            !old(self)@.store(t).parachutes.contains_key(id@),
        ensures
            final(self).wf(),
            final(self)@ == old(self)@.with_store(
                t,
                StoreView { parachutes: old(self)@.store(t).parachutes.insert(id@, d@), ..old(self)@.store(t) },
            ),
    {
        match t {
            ParachuteType::Drogue => self.drogues.parachutes.insert_new(id, d),
            ParachuteType::Main => self.mains.parachutes.insert_new(id, d),
            ParachuteType::Reserve => self.reserves.parachutes.insert_new(id, d),
        }
    }

    /// Puts a new parachute of type `parachute_type` into service under
    /// identifier `id`: registers it as active under the current in-service
    /// nonce, records who did it and when, and appends the nonce to the
    /// rigger's in-service list. Refused with `NotQualified` unless the rigger
    /// is Senior or Master, and with `ParachuteAlreadyExists` when `id` is
    /// registered for that type.
    pub fn do_in_service(
        &mut self,
        rigger: u64,
        parachute_type: ParachuteType,
        parachute_owner: Vec<u8>,
        parachute_model: ParachuteModel,
        id: Vec<u8>,
        date: Vec<u8>,
    ) -> (r: Result<(), Error>)
        requires
            old(self).wf(),
            old(self)@.in_service_defined(rigger, parachute_type, id@),
        ensures
            final(self).wf(),
            final(self)@ == old(self)@.in_service(rigger, parachute_type, parachute_owner@, parachute_model, id@, date@).0,
            r == old(self)@.in_service(rigger, parachute_type, parachute_owner@, parachute_model, id@, date@).1,
            r is Err ==> final(self)@ == old(self)@,
    {
        let ghost pre = self@;
        if !qualified(self.rigger_of(rigger)) {
            return Err(Error::NotQualified);
        }
        if self.store(parachute_type).parachutes.contains(&id) {
            return Err(Error::ParachuteAlreadyExists);
        }
        let nonce = self.in_service_nonce;
        let new_parachute = ParachuteDetails {
            active: true,
            owner: parachute_owner,
            model: parachute_model,
            in_service: nonce,
            rigs: Vec::new(),
            repairs: Vec::new(),
            retired: None,
        };
        assert(new_parachute@ =~= ParachuteView::fresh(parachute_owner@, parachute_model, nonce));
        self.insert_parachute(parachute_type, copy_bytes(&id), new_parachute);
        let rec = InServiceDetails { who: rigger, parachute: copy_bytes(&id), date };
        proof { lemma_view_map_insert(self.in_service@, nonce, rec); }
        self.in_service.insert(nonce, rec);
        let mut loft = self.take_loft(rigger);
        loft.in_service.push(nonce);
        self.insert_loft(rigger, loft);
        self.in_service_nonce = next_nonce(nonce);
        self.deposit_event(Event::ParachuteInService { who: rigger, parachute: id });
        assert(self@ =~= pre.in_service(rigger, parachute_type, parachute_owner@, parachute_model, id@, date@).0);
        Ok(())
    }

    fn rig_record(
        &mut self,
        t: ParachuteType,
        rigger: u64,
        id: Vec<u8>,
        drogue: Option<Vec<u8>>,
        location: Vec<u8>,
        date: Vec<u8>,
    )
        requires
            old(self).wf(),
            old(self)@.store(t).parachutes.contains_key(id@),
            old(self)@.riggers.contains_key(rigger),
        ensures
            final(self).wf(),
            final(self)@ == old(self)@.record_rig(rigger, t, id@, opt_bytes_view(drogue), location@, date@),
    {
        let ghost pre = self@;
        let n = match t {
            ParachuteType::Drogue => self.drogues.record_rig(rigger, &id, drogue, location, date),
            ParachuteType::Main => self.mains.record_rig(rigger, &id, drogue, location, date),
            ParachuteType::Reserve => self.reserves.record_rig(rigger, &id, drogue, location, date),
        };
        let mut loft = self.take_loft(rigger);
        match t {
            ParachuteType::Drogue => loft.drogues_rigged.push(n),
            ParachuteType::Main => loft.mains_rigged.push(n),
            ParachuteType::Reserve => loft.reserves_rigged.push(n),
        }
        assert(loft@ =~= pre.riggers[rigger].push_rigged(t, n));
        self.insert_loft(rigger, loft);
        self.deposit_event(Event::ParachuteRigged { who: rigger, parachute: id });
        assert(self@ =~= pre.record_rig(rigger, t, id@, opt_bytes_view(drogue), location@, date@));
    }

    fn is_active(&self, t: ParachuteType, id: &Vec<u8>) -> (r: bool)
        requires
            self.wf(),
            self@.store(t).parachutes.contains_key(id@),
        ensures
            r == self@.parachute(t, id@).active,
    {
        self.store(t).parachutes.get(id).unwrap().active
    }

    /// Rigs parachute `parachute` of type `parachute_type`: records who rigged
    /// it, where and when (for a main, with the drogue rigged to it) in the
    /// type's rigging ledger under its nonce, and appends that nonce to the
    /// parachute's and the rigger's lists. Refused with `ParachuteRetired` for
    /// a retired parachute; a main with `DrogueDoesNotExist` or `DrogueRetired`
    /// when its drogue is unknown or retired; a reserve with `NotQualified`
    /// unless the rigger is Senior or Master.
    pub fn do_rig(
        &mut self,
        rigger: u64,
        parachute: Vec<u8>,
        parachute_type: ParachuteType,
        drogue: Option<Vec<u8>>,
        location: Vec<u8>,
        date: Vec<u8>,
    ) -> (r: Result<(), Error>)
        requires
            old(self).wf(),
            old(self)@.rig_defined(rigger, parachute@, parachute_type, opt_bytes_view(drogue)),
        ensures
            final(self).wf(),
            final(self)@ == old(self)@.rig(rigger, parachute@, parachute_type, opt_bytes_view(drogue), location@, date@).0,
            r == old(self)@.rig(rigger, parachute@, parachute_type, opt_bytes_view(drogue), location@, date@).1,
            r is Err ==> final(self)@ == old(self)@,
    {
        match parachute_type {
            ParachuteType::Drogue => {
                if !self.is_active(ParachuteType::Drogue, &parachute) {
                    return Err(Error::ParachuteRetired);
                }
                self.rig_record(ParachuteType::Drogue, rigger, parachute, None, location, date);
            },
            ParachuteType::Main => {
                let d = drogue.unwrap();
                match self.drogues.parachutes.get(&d) {
                    None => {
                        return Err(Error::DrogueDoesNotExist);
                    },
                    Some(details) => {
                        if !details.active {
                            return Err(Error::DrogueRetired);
                        }
                    },
                }
                if !self.is_active(ParachuteType::Main, &parachute) {
                    return Err(Error::ParachuteRetired);
                }
                self.rig_record(ParachuteType::Main, rigger, parachute, Some(d), location, date);
            },
            ParachuteType::Reserve => {
                if !qualified(self.rigger_of(rigger)) {
                    return Err(Error::NotQualified);
                }
                if !self.is_active(ParachuteType::Reserve, &parachute) {
                    return Err(Error::ParachuteRetired);
                }
                self.rig_record(ParachuteType::Reserve, rigger, parachute, None, location, date);
            },
        }
        Ok(())
    }

    fn push_repair_to(&mut self, t: ParachuteType, id: &Vec<u8>, n: u32)
        requires
            old(self).wf(),
            old(self)@.store(t).parachutes.contains_key(id@),
        ensures
            final(self).wf(),
            final(self)@ == old(self)@.with_store(
                t,
                StoreView {
                    parachutes: old(self)@.store(t).parachutes.insert(
                        id@,
                        ParachuteView { repairs: old(self)@.parachute(t, id@).repairs.push(n), ..old(self)@.parachute(t, id@) },
                    ),
                    ..old(self)@.store(t)
                },
            ),
    {
        match t {
            ParachuteType::Drogue => self.drogues.parachutes.push_repair(id, n),
            ParachuteType::Main => self.mains.parachutes.push_repair(id, n),
            ParachuteType::Reserve => self.reserves.parachutes.push_repair(id, n),
        }
    }

    /// Repairs parachute `parachute` of type `parachute_type`: records who
    /// repaired it, when and what in the repair ledger under the repair nonce,
    /// and appends that nonce to the parachute's and the rigger's repair
    /// lists. Refused with `NotQualified` unless the rigger is Senior or
    /// Master, and with `ParachuteRetired` for a retired parachute.
    pub fn do_repair(
        &mut self,
        rigger: u64,
        parachute: Vec<u8>,
        parachute_type: ParachuteType,
        date: Vec<u8>,
        repair: Vec<u8>,
    ) -> (r: Result<(), Error>)
        requires
            old(self).wf(),
            old(self)@.repair_defined(rigger, parachute@, parachute_type),
        ensures
            final(self).wf(),
            final(self)@ == old(self)@.repair(rigger, parachute@, parachute_type, date@, repair@).0,
            r == old(self)@.repair(rigger, parachute@, parachute_type, date@, repair@).1,
            r is Err ==> final(self)@ == old(self)@,
    {
        let ghost pre = self@;
        if !qualified(self.rigger_of(rigger)) {
            return Err(Error::NotQualified);
        }
        if !self.is_active(parachute_type, &parachute) {
            return Err(Error::ParachuteRetired);
        }
        let nonce = self.repair_nonce;
        let rec = RepairDetails { who: rigger, parachute: copy_bytes(&parachute), date, repair };
        proof { lemma_view_map_insert(self.repairs@, nonce, rec); }
        self.repairs.insert(nonce, rec);
        self.push_repair_to(parachute_type, &parachute, nonce);
        let mut loft = self.take_loft(rigger);
        loft.repairs.push(nonce);
        self.insert_loft(rigger, loft);
        self.repair_nonce = next_nonce(nonce);
        self.deposit_event(Event::ParachuteRepaired { who: rigger, parachute });
        assert(self@ =~= pre.repair(rigger, parachute@, parachute_type, date@, repair@).0);
        Ok(())
    }

    fn mark_retired_in(&mut self, t: ParachuteType, id: &Vec<u8>, n: u32)
        requires
            old(self).wf(),
            old(self)@.store(t).parachutes.contains_key(id@),
        ensures
            final(self).wf(),
            final(self)@ == old(self)@.with_store(
                t,
                StoreView {
                    parachutes: old(self)@.store(t).parachutes.insert(
                        id@,
                        ParachuteView { active: false, retired: Some(n), ..old(self)@.parachute(t, id@) },
                    ),
                    ..old(self)@.store(t)
                },
            ),
    {
        match t {
            ParachuteType::Drogue => self.drogues.parachutes.mark_retired(id, n),
            ParachuteType::Main => self.mains.parachutes.mark_retired(id, n),
            ParachuteType::Reserve => self.reserves.parachutes.mark_retired(id, n),
        }
    }

    /// Retires parachute `parachute` of type `parachute_type`: records who
    /// retired it and when in the retire ledger under the retire nonce, marks
    /// the parachute inactive with that nonce, and appends the nonce to the
    /// rigger's retire list. Refused with `NotQualified` unless the rigger is
    /// Senior or Master, and with `ParachuteRetired` for a retired parachute.
    pub fn do_retire(
        &mut self,
        rigger: u64,
        parachute: Vec<u8>,
        parachute_type: ParachuteType,
        date: Vec<u8>,
    ) -> (r: Result<(), Error>)
        requires
            old(self).wf(),
            old(self)@.retire_defined(rigger, parachute@, parachute_type),
        ensures
            final(self).wf(),
            final(self)@ == old(self)@.retire(rigger, parachute@, parachute_type, date@).0,
            r == old(self)@.retire(rigger, parachute@, parachute_type, date@).1,
            r is Err ==> final(self)@ == old(self)@,
    {
        let ghost pre = self@;
        if !qualified(self.rigger_of(rigger)) {
            return Err(Error::NotQualified);
        }
        if !self.is_active(parachute_type, &parachute) {
            return Err(Error::ParachuteRetired);
        }
        let nonce = self.retire_nonce;
        let rec = RetireDetails { who: rigger, parachute: copy_bytes(&parachute), date };
        proof { lemma_view_map_insert(self.retires@, nonce, rec); }
        self.retires.insert(nonce, rec);
        self.mark_retired_in(parachute_type, &parachute, nonce);
        let mut loft = self.take_loft(rigger);
        loft.retires.push(nonce);
        self.insert_loft(rigger, loft);
        self.retire_nonce = next_nonce(nonce);
        self.deposit_event(Event::ParachuteRetired { who: rigger, parachute });
        assert(self@ =~= pre.retire(rigger, parachute@, parachute_type, date@).0);
        Ok(())
    }

    // ----- whether a call runs to an outcome -----

    fn below_max(&self, len: usize) -> (b: bool)
        ensures
            b == (len < self@.max_rigs),
    {
        (len as u64) < (self.config.max_rigs as u64)
    }

    /// Decides `in_service_defined`: whether `do_in_service` runs to an outcome.
    pub fn in_service_runs(&self, rigger: u64, t: ParachuteType, id: &Vec<u8>) -> (b: bool)
        requires
            self.wf(),
        ensures
            b == self@.in_service_defined(rigger, t, id@),
    {
        match self.riggers.get(&rigger) {
            None => false,
            Some(loft) => {
                if qualified(loft.rigger) && !self.store(t).parachutes.contains(id) {
                    self.below_max(loft.in_service.len())
                } else {
                    true
                }
            },
        }
    }

    fn rigged_len(loft: &SmjLoftDetails, t: ParachuteType) -> (n: usize)
        ensures
            n == loft@.rigged(t).len(),
    {
        match t {
            ParachuteType::Drogue => loft.drogues_rigged.len(),
            ParachuteType::Main => loft.mains_rigged.len(),
            ParachuteType::Reserve => loft.reserves_rigged.len(),
        }
    }

    /// Whether rigging `id` of type `t` runs to an outcome, once the checks
    /// before it have passed.
    fn rig_target_runs(&self, loft: &SmjLoftDetails, t: ParachuteType, id: &Vec<u8>) -> (b: bool)
        requires
            self.wf(),
        ensures
            b == ({
                &&& self@.store(t).parachutes.contains_key(id@)
                &&& self@.parachute(t, id@).active ==> {
                    &&& self@.parachute(t, id@).rigs.len() < self@.max_rigs
                    &&& loft@.rigged(t).len() < self@.max_rigs
                }
            }),
    {
        match self.store(t).parachutes.get(id) {
            None => false,
            Some(p) => !p.active || (self.below_max(p.rigs.len()) && self.below_max(Self::rigged_len(loft, t))),
        }
    }

    /// Decides `rig_defined`: whether `do_rig` runs to an outcome.
    pub fn rig_runs(&self, rigger: u64, id: &Vec<u8>, t: ParachuteType, drogue: &Option<Vec<u8>>) -> (b: bool)
        requires
            self.wf(),
        ensures
            b == self@.rig_defined(rigger, id@, t, opt_bytes_view(*drogue)),
    {
        match self.riggers.get(&rigger) {
            None => false,
            Some(loft) => match t {
                ParachuteType::Drogue => self.rig_target_runs(loft, t, id),
                ParachuteType::Main => match drogue {
                    None => false,
                    Some(d) => match self.drogues.parachutes.get(d) {
                        Some(dd) => !dd.active || self.rig_target_runs(loft, t, id),
                        None => true,
                    },
                },
                ParachuteType::Reserve => !qualified(loft.rigger) || self.rig_target_runs(loft, t, id),
            },
        }
    }

    /// Decides `repair_defined`: whether `do_repair` runs to an outcome.
    pub fn repair_runs(&self, rigger: u64, id: &Vec<u8>, t: ParachuteType) -> (b: bool)
        requires
            self.wf(),
        ensures
            b == self@.repair_defined(rigger, id@, t),
    {
        match self.riggers.get(&rigger) {
            None => false,
            Some(loft) => {
                if !qualified(loft.rigger) {
                    true
                } else {
                    match self.store(t).parachutes.get(id) {
                        None => false,
                        Some(p) => !p.active || (self.below_max(p.repairs.len()) && self.below_max(loft.repairs.len())),
                    }
                }
            },
        }
    }

    /// Decides `retire_defined`: whether `do_retire` runs to an outcome.
    pub fn retire_runs(&self, rigger: u64, id: &Vec<u8>, t: ParachuteType) -> (b: bool)
        requires
            self.wf(),
        ensures
            b == self@.retire_defined(rigger, id@, t),
    {
        match self.riggers.get(&rigger) {
            None => false,
            Some(loft) => {
                if !qualified(loft.rigger) {
                    true
                } else {
                    match self.store(t).parachutes.get(id) {
                        None => false,
                        Some(p) => !p.active || self.below_max(loft.retires.len()),
                    }
                }
            },
        }
    }

    // ----- dispatchable calls -----

    /// Signed call: creates the loft details of `new_smj` (see `do_create_loft_id`).
    pub fn create_loft_id(&mut self, origin: Origin, new_smj: u64) -> (r: Result<(), DispatchError<Error>>)
        requires
            old(self).wf(),
        ensures
            final(self).wf(),
            origin is Signed ==> final(self)@ == old(self)@.create_loft_id(new_smj).0
                && r == lift(old(self)@.create_loft_id(new_smj).1),
            !(origin is Signed) ==> final(self)@ == old(self)@ && r == Err::<(), DispatchError<Error>>(DispatchError::BadOrigin),
    {
        if let Err(e) = ensure_signed::<Error>(origin) {
            return Err(e);
        }
        lift_result(self.do_create_loft_id(new_smj))
    }

    /// Signed call: sets the certification of `smj` (see `do_set_rigger`).
    pub fn set_rigger(&mut self, origin: Origin, smj: u64, rigger: Rigger) -> (r: Result<(), DispatchError<Error>>)
        requires
            old(self).wf(),
        ensures
            final(self).wf(),
            origin is Signed ==> final(self)@ == old(self)@.set_rigger(smj, rigger).0
                && r == lift(old(self)@.set_rigger(smj, rigger).1),
            !(origin is Signed) ==> final(self)@ == old(self)@ && r == Err::<(), DispatchError<Error>>(DispatchError::BadOrigin),
    {
        if let Err(e) = ensure_signed::<Error>(origin) {
            return Err(e);
        }
        lift_result(self.do_set_rigger(smj, rigger))
    }

    /// Signed call: puts a parachute into service (see `do_in_service`).
    pub fn in_service(
        &mut self,
        origin: Origin,
        rigger: u64,
        parachute_type: ParachuteType,
        parachute_owner: Vec<u8>,
        parachute_model: ParachuteModel,
        id: Vec<u8>,
        date: Vec<u8>,
    ) -> (r: Result<(), DispatchError<Error>>)
        requires
            old(self).wf(),
            origin is Signed ==> old(self)@.in_service_defined(rigger, parachute_type, id@),
        ensures
            final(self).wf(),
            origin is Signed ==> final(self)@ == old(self)@.in_service(rigger, parachute_type, parachute_owner@, parachute_model, id@, date@).0
                && r == lift(old(self)@.in_service(rigger, parachute_type, parachute_owner@, parachute_model, id@, date@).1),
            !(origin is Signed) ==> final(self)@ == old(self)@ && r == Err::<(), DispatchError<Error>>(DispatchError::BadOrigin),
    {
        if let Err(e) = ensure_signed::<Error>(origin) {
            return Err(e);
        }
        lift_result(self.do_in_service(rigger, parachute_type, parachute_owner, parachute_model, id, date))
    }

    /// Signed call: rigs a parachute (see `do_rig`).
    pub fn rig(
        &mut self,
        origin: Origin,
        rigger: u64,
        parachute: Vec<u8>,
        parachute_type: ParachuteType,
        drogue: Option<Vec<u8>>,
        location: Vec<u8>,
        date: Vec<u8>,
    ) -> (r: Result<(), DispatchError<Error>>)
        requires
            old(self).wf(),
            origin is Signed ==> old(self)@.rig_defined(rigger, parachute@, parachute_type, opt_bytes_view(drogue)),
        ensures
            final(self).wf(),
            origin is Signed ==> final(self)@ == old(self)@.rig(rigger, parachute@, parachute_type, opt_bytes_view(drogue), location@, date@).0
                && r == lift(old(self)@.rig(rigger, parachute@, parachute_type, opt_bytes_view(drogue), location@, date@).1),
            !(origin is Signed) ==> final(self)@ == old(self)@ && r == Err::<(), DispatchError<Error>>(DispatchError::BadOrigin),
    {
        if let Err(e) = ensure_signed::<Error>(origin) {
            return Err(e);
        }
        lift_result(self.do_rig(rigger, parachute, parachute_type, drogue, location, date))
    }

    /// Signed call: repairs a parachute (see `do_repair`).
    pub fn repair(
        &mut self,
        origin: Origin,
        rigger: u64,
        parachute: Vec<u8>,
        parachute_type: ParachuteType,
        date: Vec<u8>,
        repair: Vec<u8>,
    ) -> (r: Result<(), DispatchError<Error>>)
        requires
            old(self).wf(),
            origin is Signed ==> old(self)@.repair_defined(rigger, parachute@, parachute_type),
        ensures
            final(self).wf(),
            origin is Signed ==> final(self)@ == old(self)@.repair(rigger, parachute@, parachute_type, date@, repair@).0
                && r == lift(old(self)@.repair(rigger, parachute@, parachute_type, date@, repair@).1),
            !(origin is Signed) ==> final(self)@ == old(self)@ && r == Err::<(), DispatchError<Error>>(DispatchError::BadOrigin),
    {
        if let Err(e) = ensure_signed::<Error>(origin) {
            return Err(e);
        }
        lift_result(self.do_repair(rigger, parachute, parachute_type, date, repair))
    }

    /// Signed call: retires a parachute (see `do_retire`).
    pub fn retire(
        &mut self,
        origin: Origin,
        rigger: u64,
        parachute: Vec<u8>,
        parachute_type: ParachuteType,
        date: Vec<u8>,
    ) -> (r: Result<(), DispatchError<Error>>)
        requires
            old(self).wf(),
            origin is Signed ==> old(self)@.retire_defined(rigger, parachute@, parachute_type),
        ensures
            final(self).wf(),
            origin is Signed ==> final(self)@ == old(self)@.retire(rigger, parachute@, parachute_type, date@).0
                && r == lift(old(self)@.retire(rigger, parachute@, parachute_type, date@).1),
            !(origin is Signed) ==> final(self)@ == old(self)@ && r == Err::<(), DispatchError<Error>>(DispatchError::BadOrigin),
    {
        if let Err(e) = ensure_signed::<Error>(origin) {
            return Err(e);
        }
        lift_result(self.do_retire(rigger, parachute, parachute_type, date))
    }

    // ----- storage reads and loading -----

    /// The runtime constants.
    pub fn config(&self) -> (r: Config)
        ensures
            r.max_rigs == self@.max_rigs,
    {
        self.config
    }

    /// The loft details of `who`, if any.
    pub fn riggers(&self, who: u64) -> (r: Option<&SmjLoftDetails>)
        ensures
            match r {
                Some(l) => self@.riggers.contains_key(who) && l@ == self@.riggers[who],
                None => !self@.riggers.contains_key(who),
            },
    {
        self.riggers.get(&who)
    }

    /// The drogue registered under `id`, if any.
    pub fn drogues(&self, id: &Vec<u8>) -> (r: Option<&ParachuteDetails>)
        requires
            self.wf(),
        ensures
            match r {
                Some(d) => self@.drogues.parachutes.contains_key(id@) && d@ == self@.drogues.parachutes[id@],
                None => !self@.drogues.parachutes.contains_key(id@),
            },
    {
        self.drogues.parachutes.get(id)
    }

    /// The main parachute registered under `id`, if any.
    pub fn mains(&self, id: &Vec<u8>) -> (r: Option<&ParachuteDetails>)
        requires
            self.wf(),
        ensures
            match r {
                Some(d) => self@.mains.parachutes.contains_key(id@) && d@ == self@.mains.parachutes[id@],
                None => !self@.mains.parachutes.contains_key(id@),
            },
    {
        self.mains.parachutes.get(id)
    }

    /// The reserve registered under `id`, if any.
    pub fn reserves(&self, id: &Vec<u8>) -> (r: Option<&ParachuteDetails>)
        requires
            self.wf(),
        ensures
            match r {
                Some(d) => self@.reserves.parachutes.contains_key(id@) && d@ == self@.reserves.parachutes[id@],
                None => !self@.reserves.parachutes.contains_key(id@),
            },
    {
        self.reserves.parachutes.get(id)
    }

    /// The in-service record under key `n`, if any.
    pub fn in_service_ledger(&self, n: u32) -> (r: Option<&InServiceDetails>)
        ensures
            match r {
                Some(d) => self@.in_service.contains_key(n) && d@ == self@.in_service[n],
                None => !self@.in_service.contains_key(n),
            },
    {
        self.in_service.get(&n)
    }

    /// The repair record under key `n`, if any.
    pub fn repair_ledger(&self, n: u32) -> (r: Option<&RepairDetails>)
        ensures
            match r {
                Some(d) => self@.repairs.contains_key(n) && d@ == self@.repairs[n],
                None => !self@.repairs.contains_key(n),
            },
    {
        self.repairs.get(&n)
    }

    /// The retire record under key `n`, if any.
    pub fn retire_ledger(&self, n: u32) -> (r: Option<&RetireDetails>)
        ensures
            match r {
                Some(d) => self@.retires.contains_key(n) && d@ == self@.retires[n],
                None => !self@.retires.contains_key(n),
            },
    {
        self.retires.get(&n)
    }

    /// The rigging record under key `n` for parachutes of type `t`, if any.
    pub fn rigging_ledger(&self, t: ParachuteType, n: u32) -> (r: Option<&RiggingDetails>)
        ensures
            match r {
                Some(d) => self@.store(t).rigged.contains_key(n) && d@ == self@.store(t).rigged[n],
                None => !self@.store(t).rigged.contains_key(n),
            },
    {
        match t {
            ParachuteType::Drogue => self.drogues.rigged.get(&n),
            ParachuteType::Main => self.mains.rigged.get(&n),
            ParachuteType::Reserve => self.reserves.rigged.get(&n),
        }
    }

    /// The next in-service key.
    pub fn in_service_nonce(&self) -> (r: u32)
        ensures
            r == self@.in_service_nonce,
    {
        self.in_service_nonce
    }

    /// The next repair key.
    pub fn repair_nonce(&self) -> (r: u32)
        ensures
            r == self@.repair_nonce,
    {
        self.repair_nonce
    }

    /// The next retire key.
    pub fn retire_nonce(&self) -> (r: u32)
        ensures
            r == self@.retire_nonce,
    {
        self.retire_nonce
    }

    /// The next rigging key for parachutes of type `t`.
    pub fn rigged_nonce(&self, t: ParachuteType) -> (r: u32)
        ensures
            r == self@.store(t).rigged_nonce,
    {
        match t {
            ParachuteType::Drogue => self.drogues.rigged_nonce,
            ParachuteType::Main => self.mains.rigged_nonce,
            ParachuteType::Reserve => self.reserves.rigged_nonce,
        }
    }

    /// Sets the next key of every ledger, as when loading stored nonces.
    pub fn set_nonces(&mut self, nonces: Nonces)
        ensures
            final(self).wf() == old(self).wf(),
            final(self)@ == (PalletView {
                in_service_nonce: nonces.in_service,
                repair_nonce: nonces.repair,
                retire_nonce: nonces.retire,
                drogues: StoreView { rigged_nonce: nonces.drogues_rigged, ..old(self)@.drogues },
                mains: StoreView { rigged_nonce: nonces.mains_rigged, ..old(self)@.mains },
                reserves: StoreView { rigged_nonce: nonces.reserves_rigged, ..old(self)@.reserves },
                ..old(self)@
            }),
    {
        self.in_service_nonce = nonces.in_service;
        self.repair_nonce = nonces.repair;
        self.retire_nonce = nonces.retire;
        self.drogues.rigged_nonce = nonces.drogues_rigged;
        self.mains.rigged_nonce = nonces.mains_rigged;
        self.reserves.rigged_nonce = nonces.reserves_rigged;
    }

    /// The events deposited so far, oldest first.
    pub fn events(&self) -> (r: &Vec<Event>)
        ensures
            view_seq(r@) == self@.events,
    {
        &self.events
    }

    /// The most recent event, if any.
    pub fn last_event(&self) -> (r: Option<&Event>)
        ensures
            match r {
                Some(e) => self@.events.len() > 0 && e@ == self@.events.last(),
                None => self@.events.len() == 0,
            },
    {
        if self.events.len() == 0 {
            None
        } else {
            Some(&self.events[self.events.len() - 1])
        }
    }

    /// Hands over the events deposited so far and clears them.
    pub fn take_events(&mut self) -> (r: Vec<Event>)
        ensures
            final(self).wf() == old(self).wf(),
            view_seq(r@) == old(self)@.events,
            final(self)@ == (PalletView { events: Seq::empty(), ..old(self)@ }),
    {
        let mut r: Vec<Event> = Vec::new();
        std::mem::swap(&mut r, &mut self.events);
        assert(view_seq(self.events@) =~= Seq::<super::types::EventView>::empty());
        r
    }
}

} // verus!
