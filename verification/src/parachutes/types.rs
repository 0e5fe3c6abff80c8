use vstd::prelude::*;

verus! {

/// FAA parachute rigger certifications.
#[derive(Clone, Copy, Debug, PartialEq, Eq, Structural)]
pub enum Rigger {
    Uncertified,
    Senior,
    Master,
}

/// The kinds of parachute the loft keeps a registry for.
#[derive(Clone, Copy, Debug, PartialEq, Eq, Structural)]
pub enum ParachuteType {
    Drogue,
    Main,
    Reserve,
}

/// Parachute models.
#[derive(Clone, Copy, Debug, PartialEq, Eq, Structural)]
pub enum ParachuteModel {
    Drogue,
    DC7,
    CR360,
    MT1S,
}

/// A rigger may put parachutes into service, repair and retire them, and rig
/// reserves, only with a Senior or Master certification.
pub open spec fn is_qualified(r: Rigger) -> bool {
    r == Rigger::Senior || r == Rigger::Master
}

/// Decides `is_qualified`.
pub fn qualified(r: Rigger) -> (b: bool)
    ensures
        b == is_qualified(r),
{
    match r {
        Rigger::Uncertified => false,
        Rigger::Senior => true,
        Rigger::Master => true,
    }
}

/// Loft metadata attached to a smokejumper: the certification and, per kind
/// of record, the ledger keys of the records the smokejumper made.
#[derive(Debug, PartialEq, Eq)]
pub struct SmjLoftDetails {
    pub rigger: Rigger,
    pub in_service: Vec<u32>,
    pub drogues_rigged: Vec<u32>,
    pub mains_rigged: Vec<u32>,
    pub reserves_rigged: Vec<u32>,
    pub repairs: Vec<u32>,
    pub retires: Vec<u32>,
}

#[verifier::ext_equal]
pub struct LoftView {
    pub rigger: Rigger,
    pub in_service: Seq<u32>,
    pub drogues_rigged: Seq<u32>,
    pub mains_rigged: Seq<u32>,
    pub reserves_rigged: Seq<u32>,
    pub repairs: Seq<u32>,
    pub retires: Seq<u32>,
}

impl View for SmjLoftDetails {
    type V = LoftView;

    open spec fn view(&self) -> LoftView {
        LoftView {
            rigger: self.rigger,
            in_service: self.in_service@,
            drogues_rigged: self.drogues_rigged@,
            mains_rigged: self.mains_rigged@,
            reserves_rigged: self.reserves_rigged@,
            repairs: self.repairs@,
            retires: self.retires@,
        }
    }
}

impl LoftView {
    /// The loft of a new smokejumper: uncertified, with no records.
    pub open spec fn fresh() -> LoftView {
        LoftView {
            rigger: Rigger::Uncertified,
            in_service: Seq::empty(),
            drogues_rigged: Seq::empty(),
            mains_rigged: Seq::empty(),
            reserves_rigged: Seq::empty(),
            repairs: Seq::empty(),
            retires: Seq::empty(),
        }
    }

    /// The rigging keys the smokejumper holds for parachutes of type `t`.
    pub open spec fn rigged(self, t: ParachuteType) -> Seq<u32> {
        match t {
            ParachuteType::Drogue => self.drogues_rigged,
            ParachuteType::Main => self.mains_rigged,
            ParachuteType::Reserve => self.reserves_rigged,
        }
    }

    /// The loft with rigging key `n` appended for parachutes of type `t`.
    pub open spec fn push_rigged(self, t: ParachuteType, n: u32) -> LoftView {
        match t {
            ParachuteType::Drogue => LoftView { drogues_rigged: self.drogues_rigged.push(n), ..self },
            ParachuteType::Main => LoftView { mains_rigged: self.mains_rigged.push(n), ..self },
            ParachuteType::Reserve => LoftView { reserves_rigged: self.reserves_rigged.push(n), ..self },
        }
    }
}

/// Lifecycle metadata of a parachute.
#[derive(Debug, PartialEq, Eq)]
pub struct ParachuteDetails {
    pub active: bool,
    pub owner: Vec<u8>,
    pub model: ParachuteModel,
    pub in_service: u32,
    pub rigs: Vec<u32>,
    pub repairs: Vec<u32>,
    pub retired: Option<u32>,
}

#[verifier::ext_equal]
pub struct ParachuteView {
    pub active: bool,
    pub owner: Seq<u8>,
    pub model: ParachuteModel,
    pub in_service: u32,
    pub rigs: Seq<u32>,
    pub repairs: Seq<u32>,
    pub retired: Option<u32>,
}

impl View for ParachuteDetails {
    type V = ParachuteView;

    open spec fn view(&self) -> ParachuteView {
        ParachuteView {
            active: self.active,
            owner: self.owner@,
            model: self.model,
            in_service: self.in_service,
            rigs: self.rigs@,
            repairs: self.repairs@,
            retired: self.retired,
        }
    }
}

impl ParachuteView {
    /// A parachute just put into service under in-service key `n`.
    pub open spec fn fresh(owner: Seq<u8>, model: ParachuteModel, n: u32) -> ParachuteView {
        ParachuteView {
            active: true,
            owner,
            model,
            in_service: n,
            rigs: Seq::empty(),
            repairs: Seq::empty(),
            retired: None,
        }
    }
}

/// In-service ledger record.
#[derive(Debug, PartialEq, Eq)]
pub struct InServiceDetails {
    pub who: u64,
    pub parachute: Vec<u8>,
    pub date: Vec<u8>,
}

#[verifier::ext_equal]
pub struct InServiceView {
    pub who: u64,
    pub parachute: Seq<u8>,
    pub date: Seq<u8>,
}

impl View for InServiceDetails {
    type V = InServiceView;

    open spec fn view(&self) -> InServiceView {
        InServiceView { who: self.who, parachute: self.parachute@, date: self.date@ }
    }
}

/// Rigging ledger record; a main is rigged together with a drogue.
#[derive(Debug, PartialEq, Eq)]
pub struct RiggingDetails {
    pub who: u64,
    pub parachute: Vec<u8>,
    pub drogue: Option<Vec<u8>>,
    pub location: Vec<u8>,
    pub date: Vec<u8>,
}

#[verifier::ext_equal]
pub struct RiggingView {
    pub who: u64,
    pub parachute: Seq<u8>,
    pub drogue: Option<Seq<u8>>,
    pub location: Seq<u8>,
    pub date: Seq<u8>,
}

pub open spec fn opt_bytes_view(o: Option<Vec<u8>>) -> Option<Seq<u8>> {
    match o {
        Some(v) => Some(v@),
        None => None,
    }
}

impl View for RiggingDetails {
    type V = RiggingView;

    open spec fn view(&self) -> RiggingView {
        RiggingView {
            who: self.who,
            parachute: self.parachute@,
            drogue: opt_bytes_view(self.drogue),
            location: self.location@,
            date: self.date@,
        }
    }
}

/// Repair ledger record.
#[derive(Debug, PartialEq, Eq)]
pub struct RepairDetails {
    pub who: u64,
    pub parachute: Vec<u8>,
    pub date: Vec<u8>,
    pub repair: Vec<u8>,
}

#[verifier::ext_equal]
pub struct RepairView {
    pub who: u64,
    pub parachute: Seq<u8>,
    pub date: Seq<u8>,
    pub repair: Seq<u8>,
}

impl View for RepairDetails {
    type V = RepairView;

    open spec fn view(&self) -> RepairView {
        RepairView {
            who: self.who,
            parachute: self.parachute@,
            date: self.date@,
            repair: self.repair@,
        }
    }
}

/// Retire ledger record.
#[derive(Debug, PartialEq, Eq)]
pub struct RetireDetails {
    pub who: u64,
    pub parachute: Vec<u8>,
    pub date: Vec<u8>,
}

#[verifier::ext_equal]
pub struct RetireView {
    pub who: u64,
    pub parachute: Seq<u8>,
    pub date: Seq<u8>,
}

impl View for RetireDetails {
    type V = RetireView;

    open spec fn view(&self) -> RetireView {
        RetireView { who: self.who, parachute: self.parachute@, date: self.date@ }
    }
}

/// What the loft reports after each successful call.
#[derive(Debug, PartialEq, Eq)]
pub enum Event {
    NewRigger { who: u64 },
    ParachuteInService { who: u64, parachute: Vec<u8> },
    ParachuteRigged { who: u64, parachute: Vec<u8> },
    ParachuteRepaired { who: u64, parachute: Vec<u8> },
    ParachuteRetired { who: u64, parachute: Vec<u8> },
    RiggerChanged { who: u64, rigger: Rigger },
}

pub enum EventView {
    NewRigger { who: u64 },
    ParachuteInService { who: u64, parachute: Seq<u8> },
    ParachuteRigged { who: u64, parachute: Seq<u8> },
    ParachuteRepaired { who: u64, parachute: Seq<u8> },
    ParachuteRetired { who: u64, parachute: Seq<u8> },
    RiggerChanged { who: u64, rigger: Rigger },
}

impl View for Event {
    type V = EventView;

    open spec fn view(&self) -> EventView {
        match self {
            Event::NewRigger { who } => EventView::NewRigger { who: *who },
            Event::ParachuteInService { who, parachute } => EventView::ParachuteInService {
                who: *who,
                parachute: parachute@,
            },
            Event::ParachuteRigged { who, parachute } => EventView::ParachuteRigged {
                who: *who,
                parachute: parachute@,
            },
            Event::ParachuteRepaired { who, parachute } => EventView::ParachuteRepaired {
                who: *who,
                parachute: parachute@,
            },
            Event::ParachuteRetired { who, parachute } => EventView::ParachuteRetired {
                who: *who,
                parachute: parachute@,
            },
            Event::RiggerChanged { who, rigger } => EventView::RiggerChanged {
                who: *who,
                rigger: *rigger,
            },
        }
    }
}

/// Why a loft call was refused.
#[derive(Clone, Copy, Debug, PartialEq, Eq, Structural)]
pub enum Error {
    AlreadyARigger,
    DrogueDoesNotExist,
    DrogueRetired,
    NoDrogue,
    NoDetails,
    NoLoftId,
    NotARigger,
    NotQualified,
    ParachuteAlreadyExists,
    ParachuteRetired,
    ParachuteDoesNotExist,
    SmjDoesNotExist,
}

} // verus!
