use vstd::prelude::*;

use super::types::{placeholder_name, Error, EventView, GasAction, GAS_AMOUNT};

verus! {

/// The pallet's storage, its deposited events, and the balance operations
/// it asked for.
#[verifier::ext_equal]
pub struct SmjPalletView {
    /// Bound on names (the configured `MaxLength`).
    pub max_length: u32,
    /// Each smokejumper account's name.
    pub smokejumpers: Map<u64, Seq<u8>>,
    pub events: Seq<EventView>,
    pub gas: Seq<GasAction>,
}

impl SmjPalletView {
    pub open spec fn initial(max_length: u32) -> SmjPalletView {
        SmjPalletView {
            max_length,
            smokejumpers: Map::empty(),
            events: Seq::empty(),
            gas: Seq::empty(),
        }
    }

    pub open spec fn create_smj(self, new_smj: u64, name: Seq<u8>) -> (SmjPalletView, Result<(), Error>) {
        if self.smokejumpers.contains_key(new_smj) {
            (self, Err(Error::SmjAlreadyCreated))
        } else {
            (
                SmjPalletView {
                    smokejumpers: self.smokejumpers.insert(new_smj, name),
                    events: self.events.push(EventView::SmjCreated { smj: name }),
                    gas: self.gas.push(GasAction::Issue { who: new_smj, amount: GAS_AMOUNT }),
                    ..self
                },
                Ok(()),
            )
        }
    }

    pub open spec fn change_name(self, smj: u64, name: Seq<u8>) -> (SmjPalletView, Result<(), Error>) {
        if !self.smokejumpers.contains_key(smj) {
            (self, Err(Error::SmjDoesNotExist))
        } else {
            (
                SmjPalletView {
                    smokejumpers: self.smokejumpers.insert(smj, name),
                    events: self.events.push(EventView::NameChanged { smj: name }),
                    ..self
                },
                Ok(()),
            )
        }
    }

    /// Whether `swap_address` runs to an outcome: when the data moves, the
    /// placeholder name fits the name bound.
    pub open spec fn swap_address_defined(self, smj: u64, new_id: u64) -> bool {
        (!self.smokejumpers.contains_key(new_id) && self.smokejumpers.contains_key(smj))
            ==> placeholder_name().len() <= self.max_length
    }

    pub open spec fn swap_address(self, smj: u64, new_id: u64) -> (SmjPalletView, Result<(), Error>) {
        if self.smokejumpers.contains_key(new_id) {
            (self, Err(Error::AlreadySmj))
        } else if !self.smokejumpers.contains_key(smj) {
            (self, Err(Error::SmjDoesNotExist))
        } else {
            let name = self.smokejumpers[smj];
            (
                SmjPalletView {
                    smokejumpers: self.smokejumpers.insert(new_id, name).insert(smj, placeholder_name()),
                    events: self.events.push(EventView::IdSwap { smj: name }),
                    gas: self.gas.push(GasAction::Issue { who: new_id, amount: GAS_AMOUNT }).push(
                        GasAction::BurnAll { who: smj },
                    ),
                    ..self
                },
                Ok(()),
            )
        }
    }
}


/// A call of the pallet, with its arguments taken by their views.
pub enum SmjCall {
    CreateSmj { new_smj: u64, name: Seq<u8> },
    ChangeName { smj: u64, name: Seq<u8> },
    SwapAddress { smj: u64, new_id: u64 },
}

impl SmjPalletView {
    /// The state and outcome after call `c`.
    pub open spec fn step(self, c: SmjCall) -> (SmjPalletView, Result<(), Error>) {
        match c {
            SmjCall::CreateSmj { new_smj, name } => self.create_smj(new_smj, name),
            SmjCall::ChangeName { smj, name } => self.change_name(smj, name),
            SmjCall::SwapAddress { smj, new_id } => self.swap_address(smj, new_id),
        }
    }

    /// Whether call `c` runs to an outcome on this state.
    pub open spec fn call_defined(self, c: SmjCall) -> bool {
        match c {
            SmjCall::SwapAddress { smj, new_id } => self.swap_address_defined(smj, new_id),
            _ => true,
        }
    }
}

} // verus!
