use vstd::prelude::*;

use super::spec::{SmjCall, SmjPalletView};
use super::types::{Error, GasAction, GAS_AMOUNT};

verus! {

/// A refused call leaves the state exactly as it was.
pub proof fn lemma_refused_call_changes_nothing(s: SmjPalletView, c: SmjCall)
    ensures
        s.step(c).1 is Err ==> s.step(c).0 == s,
{
}

/// No smokejumper record is ever removed.
pub proof fn lemma_records_never_removed(s: SmjPalletView, c: SmjCall, who: u64)
    ensures
        s.smokejumpers.contains_key(who) ==> s.step(c).0.smokejumpers.contains_key(who),
{
}

/// Every account with a record has been issued its gas.
pub open spec fn all_gassed(s: SmjPalletView) -> bool {
    forall|who: u64| #[trigger] s.smokejumpers.contains_key(who)
        ==> s.gas.contains(GasAction::Issue { who, amount: GAS_AMOUNT })
}

/// The empty state has no account without gas.
pub proof fn lemma_initial_all_gassed(max_length: u32)
    ensures
        all_gassed(SmjPalletView::initial(max_length)),
{
}

/// Every call keeps each account with a record issued its gas.
pub proof fn lemma_every_smokejumper_gets_gas(s: SmjPalletView, c: SmjCall)
    requires
        all_gassed(s),
    ensures
        all_gassed(s.step(c).0),
{
    let s2 = s.step(c).0;
    if s.step(c).1 is Ok {
        assert forall|who: u64| #[trigger] s2.smokejumpers.contains_key(who)
            implies s2.gas.contains(GasAction::Issue { who, amount: GAS_AMOUNT }) by {
            match c {
                SmjCall::CreateSmj { new_smj, name } => {
                    if who == new_smj {
                        assert(s2.gas[s2.gas.len() - 1] == GasAction::Issue { who, amount: GAS_AMOUNT });
                    } else {
                        assert(s.smokejumpers.contains_key(who));
                        let i = choose|i: int| 0 <= i < s.gas.len() && s.gas[i] == GasAction::Issue { who, amount: GAS_AMOUNT };
                        assert(s2.gas[i] == s.gas[i]);
                    }
                },
                SmjCall::ChangeName { smj, name } => {
                    assert(s.smokejumpers.contains_key(who));
                },
                SmjCall::SwapAddress { smj, new_id } => {
                    if who == new_id {
                        assert(s2.gas[s.gas.len() as int] == GasAction::Issue { who, amount: GAS_AMOUNT });
                    } else {
                        assert(s.smokejumpers.contains_key(who));
                        let i = choose|i: int| 0 <= i < s.gas.len() && s.gas[i] == GasAction::Issue { who, amount: GAS_AMOUNT };
                        assert(s2.gas[i] == s.gas[i]);
                    }
                },
            }
        }
    }
}

/// An address whose data moved away is never used again: after a
/// successful `swap_address(smj, new_id)`, no smokejumper can be created at
/// `smj` and no data can be moved onto it, while `new_id` holds the name
/// that `smj` had and `smj` holds the placeholder name.
pub proof fn lemma_old_address_retired(s: SmjPalletView, smj: u64, new_id: u64, name: Seq<u8>, other: u64)
    requires
        s.swap_address(smj, new_id).1 is Ok,
    ensures
        s.swap_address(smj, new_id).0.smokejumpers[new_id] == s.smokejumpers[smj],
        s.swap_address(smj, new_id).0.smokejumpers[smj] == super::types::placeholder_name(),
        s.swap_address(smj, new_id).0.create_smj(smj, name).1 == Err::<(), Error>(Error::SmjAlreadyCreated),
        s.swap_address(smj, new_id).0.swap_address(other, smj).1 == Err::<(), Error>(Error::AlreadySmj),
{
}

/// Each successful call deposits exactly one event, after those already
/// deposited; a refused call deposits none.
pub proof fn lemma_one_event_per_success(s: SmjPalletView, c: SmjCall)
    ensures
        s.step(c).1 is Ok ==> s.step(c).0.events.len() == s.events.len() + 1
            && s.step(c).0.events.subrange(0, s.events.len() as int) == s.events,
        s.step(c).1 is Err ==> s.step(c).0.events == s.events,
{
    if s.step(c).1 is Ok {
        assert(s.step(c).0.events.subrange(0, s.events.len() as int) =~= s.events);
    }
}

/// The state after the calls `cs`, one after the other.
pub open spec fn run(s: SmjPalletView, cs: Seq<SmjCall>) -> SmjPalletView
    decreases cs.len(),
{
    if cs.len() == 0 {
        s
    } else {
        run(s.step(cs[0]).0, cs.drop_first())
    }
}

/// No smokejumper record is ever removed, over any sequence of calls.
pub proof fn lemma_records_kept_forever(s: SmjPalletView, cs: Seq<SmjCall>, who: u64)
    requires
        s.smokejumpers.contains_key(who),
    ensures
        run(s, cs).smokejumpers.contains_key(who),
    decreases cs.len(),
{
    if cs.len() > 0 {
        lemma_records_never_removed(s, cs[0], who);
        lemma_records_kept_forever(s.step(cs[0]).0, cs.drop_first(), who);
    }
}

/// A moved-from address is never used again, whatever calls follow the
/// move: creating a smokejumper there is refused with `SmjAlreadyCreated`,
/// leaving the state unchanged and so asking for no gas, and moving data
/// onto it is refused with `AlreadySmj`.
pub proof fn lemma_moved_address_never_reused(
    s: SmjPalletView,
    smj: u64,
    new_id: u64,
    cs: Seq<SmjCall>,
    name: Seq<u8>,
    other: u64,
)
    requires
        s.swap_address(smj, new_id).1 is Ok,
    ensures
        run(s.swap_address(smj, new_id).0, cs).create_smj(smj, name).1 == Err::<(), Error>(Error::SmjAlreadyCreated),
        run(s.swap_address(smj, new_id).0, cs).create_smj(smj, name).0 == run(s.swap_address(smj, new_id).0, cs),
        run(s.swap_address(smj, new_id).0, cs).swap_address(other, smj).1 == Err::<(), Error>(Error::AlreadySmj),
{
    lemma_records_kept_forever(s.swap_address(smj, new_id).0, cs, smj);
}

} // verus!
