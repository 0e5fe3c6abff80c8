use std::collections::HashMap;
use vstd::prelude::*;

use crate::bytes::copy_bytes;
use crate::dispatch::{ensure_signed, lift, lift_result, DispatchError, Origin};
use crate::views::{lemma_view_map_insert, lemma_view_seq_push, view_map, view_seq};
use super::spec::SmjPalletView;
use super::types::{placeholder_name_bytes, Error, Event, EventView, GasAction, Smokejumper, GAS_AMOUNT};

verus! {

broadcast use vstd::std_specs::hash::group_hash_axioms;

/// The runtime's constants for the pallet.
#[derive(Clone, Copy, Debug, PartialEq, Eq, Structural)]
pub struct Config {
    /// Bound on the length of a smokejumper's name.
    pub max_length: u32,
}

/// The smokejumpers' storage, with the events deposited so far and the
/// balance operations requested so far, oldest first.
pub struct Pallet {
    config: Config,
    smokejumpers: HashMap<u64, Smokejumper>,
    events: Vec<Event>,
    gas: Vec<GasAction>,
}

impl View for Pallet {
    type V = SmjPalletView;

    closed spec fn view(&self) -> SmjPalletView {
        SmjPalletView {
            max_length: self.config.max_length,
            smokejumpers: view_map(self.smokejumpers@),
            events: view_seq(self.events@),
            gas: self.gas@,
        }
    }
}

impl Pallet {
    /// Empty storage under the given runtime constants.
    pub fn new(config: Config) -> (r: Self)
        ensures
            r@ == SmjPalletView::initial(config.max_length),
    {
        let r = Pallet { config, smokejumpers: HashMap::new(), events: Vec::new(), gas: Vec::new() };
        assert(view_map(r.smokejumpers@) =~= Map::<u64, Seq<u8>>::empty());
        assert(view_seq(r.events@) =~= Seq::<EventView>::empty());
        r
    }

    fn deposit_event(&mut self, e: Event)
        ensures
            final(self)@ == (SmjPalletView { events: old(self)@.events.push(e@), ..old(self)@ }),
    {
        proof { lemma_view_seq_push(self.events@, e); }
        self.events.push(e);
    }

    /// Stores `s` as the record of `who`, replacing any there.
    pub fn insert_smokejumper(&mut self, who: u64, s: Smokejumper)
        ensures
            final(self)@ == (SmjPalletView { smokejumpers: old(self)@.smokejumpers.insert(who, s@), ..old(self)@ }),
    {
        proof { lemma_view_map_insert(self.smokejumpers@, who, s); }
        self.smokejumpers.insert(who, s);
    }

    /// Creates smokejumper `new_smj` named `name` and issues it gas.
    /// Refused with `SmjAlreadyCreated` when the account has a record.
    pub fn do_create_smj(&mut self, new_smj: u64, name: Vec<u8>) -> (r: Result<(), Error>)
        ensures
            final(self)@ == old(self)@.create_smj(new_smj, name@).0,
            r == old(self)@.create_smj(new_smj, name@).1,
            r is Err ==> final(self)@ == old(self)@,
    {
        if self.smokejumpers.contains_key(&new_smj) {
            return Err(Error::SmjAlreadyCreated);
        }
        let ghost pre = self@;
        let smj_name = copy_bytes(&name);
        self.gas.push(GasAction::Issue { who: new_smj, amount: GAS_AMOUNT });
        self.insert_smokejumper(new_smj, Smokejumper { name });
        self.deposit_event(Event::SmjCreated { smj: smj_name });
        assert(self@ =~= pre.create_smj(new_smj, name@).0);
        Ok(())
    }

    /// Changes the name of smokejumper `smj` to `name`. Refused with
    /// `SmjDoesNotExist` when the account has no record.
    pub fn do_change_name(&mut self, smj: u64, name: Vec<u8>) -> (r: Result<(), Error>)
        ensures
            final(self)@ == old(self)@.change_name(smj, name@).0,
            r == old(self)@.change_name(smj, name@).1,
            r is Err ==> final(self)@ == old(self)@,
    {
        if !self.smokejumpers.contains_key(&smj) {
            return Err(Error::SmjDoesNotExist);
        }
        let ghost pre = self@;
        let event_name = copy_bytes(&name);
        self.insert_smokejumper(smj, Smokejumper { name });
        self.deposit_event(Event::NameChanged { smj: event_name });
        assert(self@ =~= pre.change_name(smj, name@).0);
        Ok(())
    }

    /// Moves the record of `smj` to `new_id`, issues gas to `new_id`, leaves
    /// the placeholder name at `smj` so that the old address is never used
    /// again, and burns what `smj` can spend. Refused with `AlreadySmj` when
    /// `new_id` has a record, and with `SmjDoesNotExist` when `smj` has none.
    pub fn do_swap_address(&mut self, smj: u64, new_id: u64) -> (r: Result<(), Error>)
        requires
            old(self)@.swap_address_defined(smj, new_id),
        ensures
            final(self)@ == old(self)@.swap_address(smj, new_id).0,
            r == old(self)@.swap_address(smj, new_id).1,
            r is Err ==> final(self)@ == old(self)@,
    {
        if self.smokejumpers.contains_key(&new_id) {
            return Err(Error::AlreadySmj);
        }
        if !self.smokejumpers.contains_key(&smj) {
            return Err(Error::SmjDoesNotExist);
        }
        let ghost pre = self@;
        let moved = self.smokejumpers.remove(&smj).unwrap();
        assert(view_map(self.smokejumpers@) =~= pre.smokejumpers.remove(smj));
        let name = copy_bytes(&moved.name);
        self.insert_smokejumper(new_id, moved);
        self.gas.push(GasAction::Issue { who: new_id, amount: GAS_AMOUNT });
        self.insert_smokejumper(smj, Smokejumper { name: placeholder_name_bytes() });
        self.gas.push(GasAction::BurnAll { who: smj });
        self.deposit_event(Event::IdSwap { smj: name });
        assert(self@.smokejumpers =~= pre.swap_address(smj, new_id).0.smokejumpers);
        assert(self@ =~= pre.swap_address(smj, new_id).0);
        Ok(())
    }

    /// Decides `swap_address_defined`: whether `do_swap_address` runs to an
    /// outcome.
    pub fn swap_address_runs(&self, smj: u64, new_id: u64) -> (b: bool)
        ensures
            b == self@.swap_address_defined(smj, new_id),
    {
        if !self.smokejumpers.contains_key(&new_id) && self.smokejumpers.contains_key(&smj) {
            (placeholder_name_bytes().len() as u64) <= (self.config.max_length as u64)
        } else {
            true
        }
    }

    /// Signed call: creates a smokejumper (see `do_create_smj`).
    pub fn create_smj(&mut self, origin: Origin, new_smj: u64, name: Vec<u8>) -> (r: Result<(), DispatchError<Error>>)
        ensures
            origin is Signed ==> final(self)@ == old(self)@.create_smj(new_smj, name@).0
                && r == lift(old(self)@.create_smj(new_smj, name@).1),
            !(origin is Signed) ==> final(self)@ == old(self)@ && r == Err::<(), DispatchError<Error>>(DispatchError::BadOrigin),
    {
        if let Err(e) = ensure_signed::<Error>(origin) {
            return Err(e);
        }
        lift_result(self.do_create_smj(new_smj, name))
    }

    /// Signed call: renames a smokejumper (see `do_change_name`).
    pub fn change_name(&mut self, origin: Origin, smj: u64, name: Vec<u8>) -> (r: Result<(), DispatchError<Error>>)
        ensures
            origin is Signed ==> final(self)@ == old(self)@.change_name(smj, name@).0
                && r == lift(old(self)@.change_name(smj, name@).1),
            !(origin is Signed) ==> final(self)@ == old(self)@ && r == Err::<(), DispatchError<Error>>(DispatchError::BadOrigin),
    {
        if let Err(e) = ensure_signed::<Error>(origin) {
            return Err(e);
        }
        lift_result(self.do_change_name(smj, name))
    }

    /// Signed call: moves a smokejumper to a new address (see `do_swap_address`).
    pub fn swap_address(&mut self, origin: Origin, smj: u64, new_id: u64) -> (r: Result<(), DispatchError<Error>>)
        requires
            origin is Signed ==> old(self)@.swap_address_defined(smj, new_id),
        ensures
            origin is Signed ==> final(self)@ == old(self)@.swap_address(smj, new_id).0
                && r == lift(old(self)@.swap_address(smj, new_id).1),
            !(origin is Signed) ==> final(self)@ == old(self)@ && r == Err::<(), DispatchError<Error>>(DispatchError::BadOrigin),
    {
        if let Err(e) = ensure_signed::<Error>(origin) {
            return Err(e);
        }
        lift_result(self.do_swap_address(smj, new_id))
    }

    /// The runtime constants.
    pub fn config(&self) -> (r: Config)
        ensures
            r.max_length == self@.max_length,
    {
        self.config
    }

    /// The record of `who`, if any.
    pub fn smokejumpers(&self, who: u64) -> (r: Option<&Smokejumper>)
        ensures
            match r {
                Some(s) => self@.smokejumpers.contains_key(who) && s@ == self@.smokejumpers[who],
                None => !self@.smokejumpers.contains_key(who),
            },
    {
        self.smokejumpers.get(&who)
    }

    /// The events deposited so far, oldest first.
    pub fn events(&self) -> (r: &Vec<Event>)
        ensures
            view_seq(r@) == self@.events,
    {
        &self.events
    }

    /// The most recent event, if any.
    pub fn last_event(&self) -> (r: Option<&Event>)
        ensures
            match r {
                Some(e) => self@.events.len() > 0 && e@ == self@.events.last(),
                None => self@.events.len() == 0,
            },
    {
        if self.events.len() == 0 {
            None
        } else {
            Some(&self.events[self.events.len() - 1])
        }
    }

    /// The balance operations requested so far, oldest first.
    pub fn gas_actions(&self) -> (r: &Vec<GasAction>)
        ensures
            r@ == self@.gas,
    {
        &self.gas
    }

    /// Hands over the events deposited so far and clears them.
    pub fn take_events(&mut self) -> (r: Vec<Event>)
        ensures
            view_seq(r@) == old(self)@.events,
            final(self)@ == (SmjPalletView { events: Seq::empty(), ..old(self)@ }),
    {
        let mut r: Vec<Event> = Vec::new();
        std::mem::swap(&mut r, &mut self.events);
        assert(view_seq(self.events@) =~= Seq::<EventView>::empty());
        r
    }

    /// Hands over the balance operations requested so far and clears them.
    pub fn take_gas_actions(&mut self) -> (r: Vec<GasAction>)
        ensures
            r@ == old(self)@.gas,
            final(self)@ == (SmjPalletView { gas: Seq::empty(), ..old(self)@ }),
    {
        let mut r: Vec<GasAction> = Vec::new();
        std::mem::swap(&mut r, &mut self.gas);
        r
    }
}

} // verus!
