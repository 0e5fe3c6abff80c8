use vstd::prelude::*;

use crate::dispatch::bump;
use super::types::{
    is_qualified, Error, EventView, InServiceView, LoftView, ParachuteModel, ParachuteType,
    ParachuteView, RepairView, RetireView, Rigger, RiggingView,
};

verus! {

/// The parachutes of one kind, their rigging ledger and its next key.
#[verifier::ext_equal]
pub struct StoreView {
    pub parachutes: Map<Seq<u8>, ParachuteView>,
    pub rigged: Map<u32, RiggingView>,
    pub rigged_nonce: u32,
}

/// The loft's whole storage.
#[verifier::ext_equal]
pub struct PalletView {
    /// Bound on every list of ledger keys (the configured `MaxRigs`).
    pub max_rigs: u32,
    pub riggers: Map<u64, LoftView>,
    pub in_service: Map<u32, InServiceView>,
    pub in_service_nonce: u32,
    pub repairs: Map<u32, RepairView>,
    pub repair_nonce: u32,
    pub retires: Map<u32, RetireView>,
    pub retire_nonce: u32,
    pub drogues: StoreView,
    pub mains: StoreView,
    pub reserves: StoreView,
    pub events: Seq<EventView>,
}

impl PalletView {
    /// Empty storage with the given bound on key lists.
    pub open spec fn initial(max_rigs: u32) -> PalletView {
        PalletView {
            max_rigs,
            riggers: Map::empty(),
            in_service: Map::empty(),
            in_service_nonce: 0,
            repairs: Map::empty(),
            repair_nonce: 0,
            retires: Map::empty(),
            retire_nonce: 0,
            drogues: StoreView { parachutes: Map::empty(), rigged: Map::empty(), rigged_nonce: 0 },
            mains: StoreView { parachutes: Map::empty(), rigged: Map::empty(), rigged_nonce: 0 },
            reserves: StoreView { parachutes: Map::empty(), rigged: Map::empty(), rigged_nonce: 0 },
            events: Seq::empty(),
        }
    }

    /// The store that keeps parachutes of type `t`.
    pub open spec fn store(self, t: ParachuteType) -> StoreView {
        match t {
            ParachuteType::Drogue => self.drogues,
            ParachuteType::Main => self.mains,
            ParachuteType::Reserve => self.reserves,
        }
    }

    /// This storage with the store for type `t` replaced.
    pub open spec fn with_store(self, t: ParachuteType, st: StoreView) -> PalletView {
        match t {
            ParachuteType::Drogue => PalletView { drogues: st, ..self },
            ParachuteType::Main => PalletView { mains: st, ..self },
            ParachuteType::Reserve => PalletView { reserves: st, ..self },
        }
    }

    /// The parachute `id` of type `t`, when registered.
    pub open spec fn parachute(self, t: ParachuteType, id: Seq<u8>) -> ParachuteView {
        self.store(t).parachutes[id]
    }

    pub open spec fn is_qualified_rigger(self, who: u64) -> bool {
        is_qualified(self.riggers[who].rigger)
    }

    // ----- create_loft_id -----

    pub open spec fn create_loft_id(self, who: u64) -> (PalletView, Result<(), Error>) {
        if self.riggers.contains_key(who) {
            (self, Err(Error::AlreadyARigger))
        } else {
            (
                PalletView {
                    riggers: self.riggers.insert(who, LoftView::fresh()),
                    events: self.events.push(EventView::NewRigger { who }),
                    ..self
                },
                Ok(()),
            )
        }
    }

    // ----- set_rigger -----

    pub open spec fn set_rigger(self, who: u64, rigger: Rigger) -> (PalletView, Result<(), Error>) {
        if !self.riggers.contains_key(who) {
            (self, Err(Error::NoLoftId))
        } else if self.riggers[who].rigger == rigger {
            (self, Err(Error::AlreadyARigger))
        } else {
            (
                PalletView {
                    riggers: self.riggers.insert(who, LoftView { rigger, ..self.riggers[who] }),
                    events: self.events.push(EventView::RiggerChanged { who, rigger }),
                    ..self
                },
                Ok(()),
            )
        }
    }

    // ----- in_service -----

    /// Whether `in_service` runs to an outcome: the rigger has a loft, and a
    /// new parachute's in-service key fits in the rigger's list.
    pub open spec fn in_service_defined(self, rigger: u64, t: ParachuteType, id: Seq<u8>) -> bool {
        &&& self.riggers.contains_key(rigger)
        &&& (self.is_qualified_rigger(rigger) && !self.store(t).parachutes.contains_key(id))
            ==> self.riggers[rigger].in_service.len() < self.max_rigs
    }

    pub open spec fn in_service(
        self,
        rigger: u64,
        t: ParachuteType,
        owner: Seq<u8>,
        model: ParachuteModel,
        id: Seq<u8>,
        date: Seq<u8>,
    ) -> (PalletView, Result<(), Error>) {
        if !self.is_qualified_rigger(rigger) {
            (self, Err(Error::NotQualified))
        } else if self.store(t).parachutes.contains_key(id) {
            (self, Err(Error::ParachuteAlreadyExists))
        } else {
            let n = self.in_service_nonce;
            let st = self.store(t);
            let s = self.with_store(
                t,
                StoreView {
                    parachutes: st.parachutes.insert(id, ParachuteView::fresh(owner, model, n)),
                    ..st
                },
            );
            let loft = self.riggers[rigger];
            (
                PalletView {
                    in_service: s.in_service.insert(n, InServiceView { who: rigger, parachute: id, date }),
                    riggers: s.riggers.insert(rigger, LoftView { in_service: loft.in_service.push(n), ..loft }),
                    in_service_nonce: bump(n),
                    events: s.events.push(EventView::ParachuteInService { who: rigger, parachute: id }),
                    ..s
                },
                Ok(()),
            )
        }
    }

    // ----- rig -----

    /// The storage after `rigger` rigs parachute `id` of type `t`: a new
    /// rigging record under the store's nonce, whose key goes to the
    /// parachute's and the rigger's lists.
    pub open spec fn record_rig(
        self,
        rigger: u64,
        t: ParachuteType,
        id: Seq<u8>,
        drogue: Option<Seq<u8>>,
        location: Seq<u8>,
        date: Seq<u8>,
    ) -> PalletView {
        let st = self.store(t);
        let n = st.rigged_nonce;
        let p = st.parachutes[id];
        let s = self.with_store(
            t,
            StoreView {
                parachutes: st.parachutes.insert(id, ParachuteView { rigs: p.rigs.push(n), ..p }),
                rigged: st.rigged.insert(n, RiggingView { who: rigger, parachute: id, drogue, location, date }),
                rigged_nonce: bump(n),
            },
        );
        PalletView {
            riggers: s.riggers.insert(rigger, self.riggers[rigger].push_rigged(t, n)),
            events: s.events.push(EventView::ParachuteRigged { who: rigger, parachute: id }),
            ..s
        }
    }

    /// A rig of parachute `id` of type `t` fits the bounded key lists.
    pub open spec fn rig_fits(self, rigger: u64, t: ParachuteType, id: Seq<u8>) -> bool {
        &&& self.parachute(t, id).rigs.len() < self.max_rigs
        &&& self.riggers[rigger].rigged(t).len() < self.max_rigs
    }

    /// Whether `rig` runs to an outcome: the rigger has a loft; a main names a
    /// drogue; the parachute to rig is registered; the key lists have room.
    pub open spec fn rig_defined(
        self,
        rigger: u64,
        id: Seq<u8>,
        t: ParachuteType,
        drogue: Option<Seq<u8>>,
    ) -> bool {
        &&& self.riggers.contains_key(rigger)
        &&& match t {
            ParachuteType::Drogue => {
                &&& self.drogues.parachutes.contains_key(id)
                &&& self.drogues.parachutes[id].active ==> self.rig_fits(rigger, t, id)
            },
            ParachuteType::Main => {
                &&& drogue is Some
                &&& (self.drogues.parachutes.contains_key(drogue->0)
                    && self.drogues.parachutes[drogue->0].active) ==> {
                    &&& self.mains.parachutes.contains_key(id)
                    &&& self.mains.parachutes[id].active ==> self.rig_fits(rigger, t, id)
                }
            },
            ParachuteType::Reserve => self.is_qualified_rigger(rigger) ==> {
                &&& self.reserves.parachutes.contains_key(id)
                &&& self.reserves.parachutes[id].active ==> self.rig_fits(rigger, t, id)
            },
        }
    }

    pub open spec fn rig(
        self,
        rigger: u64,
        id: Seq<u8>,
        t: ParachuteType,
        drogue: Option<Seq<u8>>,
        location: Seq<u8>,
        date: Seq<u8>,
    ) -> (PalletView, Result<(), Error>) {
        match t {
            ParachuteType::Drogue => {
                if !self.drogues.parachutes[id].active {
                    (self, Err(Error::ParachuteRetired))
                } else {
                    (self.record_rig(rigger, t, id, None, location, date), Ok(()))
                }
            },
            ParachuteType::Main => {
                let d = drogue->0;
                if !self.drogues.parachutes.contains_key(d) {
                    (self, Err(Error::DrogueDoesNotExist))
                } else if !self.drogues.parachutes[d].active {
                    (self, Err(Error::DrogueRetired))
                } else if !self.mains.parachutes[id].active {
                    (self, Err(Error::ParachuteRetired))
                } else {
                    (self.record_rig(rigger, t, id, Some(d), location, date), Ok(()))
                }
            },
            ParachuteType::Reserve => {
                if !self.is_qualified_rigger(rigger) {
                    (self, Err(Error::NotQualified))
                } else if !self.reserves.parachutes[id].active {
                    (self, Err(Error::ParachuteRetired))
                } else {
                    (self.record_rig(rigger, t, id, None, location, date), Ok(()))
                }
            },
        }
    }

    // ----- repair -----

    /// Whether `repair` runs to an outcome: the rigger has a loft; for a
    /// qualified rigger the parachute is registered; the key lists have room.
    pub open spec fn repair_defined(self, rigger: u64, id: Seq<u8>, t: ParachuteType) -> bool {
        &&& self.riggers.contains_key(rigger)
        &&& self.is_qualified_rigger(rigger) ==> {
            &&& self.store(t).parachutes.contains_key(id)
            &&& self.parachute(t, id).active ==> {
                &&& self.parachute(t, id).repairs.len() < self.max_rigs
                &&& self.riggers[rigger].repairs.len() < self.max_rigs
            }
        }
    }

    pub open spec fn repair(
        self,
        rigger: u64,
        id: Seq<u8>,
        t: ParachuteType,
        date: Seq<u8>,
        repair: Seq<u8>,
    ) -> (PalletView, Result<(), Error>) {
        if !self.is_qualified_rigger(rigger) {
            (self, Err(Error::NotQualified))
        } else if !self.parachute(t, id).active {
            (self, Err(Error::ParachuteRetired))
        } else {
            let n = self.repair_nonce;
            let st = self.store(t);
            let p = st.parachutes[id];
            let s = self.with_store(
                t,
                StoreView {
                    parachutes: st.parachutes.insert(id, ParachuteView { repairs: p.repairs.push(n), ..p }),
                    ..st
                },
            );
            let loft = self.riggers[rigger];
            (
                PalletView {
                    repairs: s.repairs.insert(n, RepairView { who: rigger, parachute: id, date, repair }),
                    riggers: s.riggers.insert(rigger, LoftView { repairs: loft.repairs.push(n), ..loft }),
                    repair_nonce: bump(n),
                    events: s.events.push(EventView::ParachuteRepaired { who: rigger, parachute: id }),
                    ..s
                },
                Ok(()),
            )
        }
    }

    // ----- retire -----

    /// Whether `retire` runs to an outcome: the rigger has a loft; for a
    /// qualified rigger the parachute is registered; the rigger's list has room.
    pub open spec fn retire_defined(self, rigger: u64, id: Seq<u8>, t: ParachuteType) -> bool {
        &&& self.riggers.contains_key(rigger)
        &&& self.is_qualified_rigger(rigger) ==> {
            &&& self.store(t).parachutes.contains_key(id)
            &&& self.parachute(t, id).active ==> self.riggers[rigger].retires.len() < self.max_rigs
        }
    }

    pub open spec fn retire(
        self,
        rigger: u64,
        id: Seq<u8>,
        t: ParachuteType,
        date: Seq<u8>,
    ) -> (PalletView, Result<(), Error>) {
        if !self.is_qualified_rigger(rigger) {
            (self, Err(Error::NotQualified))
        } else if !self.parachute(t, id).active {
            (self, Err(Error::ParachuteRetired))
        } else {
            let n = self.retire_nonce;
            let st = self.store(t);
            let p = st.parachutes[id];
            let s = self.with_store(
                t,
                StoreView {
                    parachutes: st.parachutes.insert(id, ParachuteView { active: false, retired: Some(n), ..p }),
                    ..st
                },
            );
            let loft = self.riggers[rigger];
            (
                PalletView {
                    retires: s.retires.insert(n, RetireView { who: rigger, parachute: id, date }),
                    riggers: s.riggers.insert(rigger, LoftView { retires: loft.retires.push(n), ..loft }),
                    retire_nonce: bump(n),
                    events: s.events.push(EventView::ParachuteRetired { who: rigger, parachute: id }),
                    ..s
                },
                Ok(()),
            )
        }
    }
}


/// A call of the loft, with its arguments taken by their views.
#[allow(inconsistent_fields)]
pub enum Call {
    CreateLoftId { who: u64 },
    SetRigger { who: u64, rigger: Rigger },
    InService { rigger: u64, t: ParachuteType, owner: Seq<u8>, model: ParachuteModel, id: Seq<u8>, date: Seq<u8> },
    Rig { rigger: u64, id: Seq<u8>, t: ParachuteType, drogue: Option<Seq<u8>>, location: Seq<u8>, date: Seq<u8> },
    Repair { rigger: u64, id: Seq<u8>, t: ParachuteType, date: Seq<u8>, repair: Seq<u8> },
    Retire { rigger: u64, id: Seq<u8>, t: ParachuteType, date: Seq<u8> },
}

impl PalletView {
    /// The storage and outcome after call `c`.
    pub open spec fn step(self, c: Call) -> (PalletView, Result<(), Error>) {
        match c {
            Call::CreateLoftId { who } => self.create_loft_id(who),
            Call::SetRigger { who, rigger } => self.set_rigger(who, rigger),
            Call::InService { rigger, t, owner, model, id, date } => self.in_service(rigger, t, owner, model, id, date),
            Call::Rig { rigger, id, t, drogue, location, date } => self.rig(rigger, id, t, drogue, location, date),
            Call::Repair { rigger, id, t, date, repair } => self.repair(rigger, id, t, date, repair),
            Call::Retire { rigger, id, t, date } => self.retire(rigger, id, t, date),
        }
    }

    /// Whether call `c` runs to an outcome on this storage.
    pub open spec fn call_defined(self, c: Call) -> bool {
        match c {
            Call::CreateLoftId { .. } => true,
            Call::SetRigger { .. } => true,
            Call::InService { rigger, t, id, .. } => self.in_service_defined(rigger, t, id),
            Call::Rig { rigger, id, t, drogue, .. } => self.rig_defined(rigger, id, t, drogue),
            Call::Repair { rigger, id, t, .. } => self.repair_defined(rigger, id, t),
            Call::Retire { rigger, id, t, .. } => self.retire_defined(rigger, id, t),
        }
    }

    /// The nonce that call `c` would use as a ledger key, if it records one.
    pub open spec fn nonce_used(self, c: Call) -> Option<u32> {
        match c {
            Call::CreateLoftId { .. } => None,
            Call::SetRigger { .. } => None,
            Call::InService { .. } => Some(self.in_service_nonce),
            Call::Rig { t, .. } => Some(self.store(t).rigged_nonce),
            Call::Repair { .. } => Some(self.repair_nonce),
            Call::Retire { .. } => Some(self.retire_nonce),
        }
    }
}


/// Replacing one store leaves every other part of the storage as it was.
pub proof fn lemma_with_store(s: PalletView, t: ParachuteType, st: StoreView, u: ParachuteType)
    ensures
        s.with_store(t, st).store(u) == (if u == t { st } else { s.store(u) }),
        s.with_store(t, st).riggers == s.riggers,
        s.with_store(t, st).in_service == s.in_service,
        s.with_store(t, st).in_service_nonce == s.in_service_nonce,
        s.with_store(t, st).repairs == s.repairs,
        s.with_store(t, st).repair_nonce == s.repair_nonce,
        s.with_store(t, st).retires == s.retires,
        s.with_store(t, st).retire_nonce == s.retire_nonce,
        s.with_store(t, st).events == s.events,
        s.with_store(t, st).max_rigs == s.max_rigs,
{
}

} // verus!
