use vstd::prelude::*;

verus! {

/// A smokejumper's record.
#[derive(Debug, PartialEq, Eq)]
pub struct Smokejumper {
    pub name: Vec<u8>,
}

impl View for Smokejumper {
    type V = Seq<u8>;

    open spec fn view(&self) -> Seq<u8> {
        self.name@
    }
}

/// What the pallet reports after each successful call.
#[derive(Debug, PartialEq, Eq)]
pub enum Event {
    IdSwap { smj: Vec<u8> },
    NameChanged { smj: Vec<u8> },
    SmjCreated { smj: Vec<u8> },
}

pub enum EventView {
    IdSwap { smj: Seq<u8> },
    NameChanged { smj: Seq<u8> },
    SmjCreated { smj: Seq<u8> },
}

impl View for Event {
    type V = EventView;

    open spec fn view(&self) -> EventView {
        match self {
            Event::IdSwap { smj } => EventView::IdSwap { smj: smj@ },
            Event::NameChanged { smj } => EventView::NameChanged { smj: smj@ },
            Event::SmjCreated { smj } => EventView::SmjCreated { smj: smj@ },
        }
    }
}

/// Why a call was refused.
#[derive(Clone, Copy, Debug, PartialEq, Eq, Structural)]
pub enum Error {
    AlreadySmj,
    SmjAlreadyCreated,
    SmjDoesNotExist,
}

/// A balance operation the pallet asks the runtime's native currency to
/// perform: issue `amount` to `who`, or burn all that `who` can spend while
/// keeping the account alive.
#[derive(Clone, Copy, Debug, PartialEq, Eq, Structural)]
pub enum GasAction {
    Issue { who: u64, amount: u128 },
    BurnAll { who: u64 },
}

impl View for GasAction {
    type V = GasAction;

    open spec fn view(&self) -> GasAction {
        *self
    }
}

/// The gas issued to every new smokejumper account.
pub const GAS_AMOUNT: u128 = 420_000_000_000_000u128;

/// The name left at an address whose data moved to a new address.
pub open spec fn placeholder_name() -> Seq<u8> {
    seq![111u8, 108u8, 100u8, 95u8, 105u8, 100u8, 95u8, 100u8, 111u8, 110u8, 116u8, 95u8, 117u8, 115u8, 101u8]
}

/// The bytes of "old_id_dont_use".
pub fn placeholder_name_bytes() -> (r: Vec<u8>)
    ensures
        r@ == placeholder_name(),
{
    let mut r: Vec<u8> = Vec::new();
    r.push(111u8); // 'o'
    r.push(108u8); // 'l'
    r.push(100u8); // 'd'
    r.push(95u8); // '_'
    r.push(105u8); // 'i'
    r.push(100u8); // 'd'
    r.push(95u8); // '_'
    r.push(100u8); // 'd'
    r.push(111u8); // 'o'
    r.push(110u8); // 'n'
    r.push(116u8); // 't'
    r.push(95u8); // '_'
    r.push(117u8); // 'u'
    r.push(115u8); // 's'
    r.push(101u8); // 'e'
    assert(r@ =~= placeholder_name());
    r
}

} // verus!
