use vstd::prelude::*;

use crate::dispatch::bump;
use super::spec::{lemma_with_store, Call, PalletView, StoreView};
use super::types::{is_qualified, Error, EventView, ParachuteModel, ParachuteType, ParachuteView, Rigger, RiggingView};

verus! {

/// A refused call leaves the loft's storage exactly as it was.
pub proof fn lemma_refused_call_changes_nothing(s: PalletView, c: Call)
    ensures
        s.step(c).1 is Err ==> s.step(c).0 == s,
{
}

/// Registered parachutes and smokejumper lofts are never removed.
pub proof fn lemma_nothing_is_removed(s: PalletView, c: Call, t: ParachuteType, id: Seq<u8>, who: u64)
    ensures
        s.store(t).parachutes.contains_key(id) ==> s.step(c).0.store(t).parachutes.contains_key(id),
        s.riggers.contains_key(who) ==> s.step(c).0.riggers.contains_key(who),
{
    lemma_step_stores(s, c, t);
}

/// Retirement is final: a retired parachute stays registered and retired,
/// under the same retire key, whatever call comes next.
pub proof fn lemma_retirement_is_final(s: PalletView, c: Call, t: ParachuteType, id: Seq<u8>)
    requires
        s.store(t).parachutes.contains_key(id),
        !s.parachute(t, id).active,
    ensures
        s.step(c).0.store(t).parachutes.contains_key(id),
        !s.step(c).0.parachute(t, id).active,
        s.step(c).0.parachute(t, id).retired == s.parachute(t, id).retired,
{
    lemma_step_stores(s, c, t);
}

/// A retired parachute is refused: rigging, repairing or retiring it again
/// fails with `ParachuteRetired` (where the rigger's certification or the
/// drogue is checked first, once those checks pass), and no main can be
/// rigged with a retired drogue.
pub proof fn lemma_retired_parachute_refused(
    s: PalletView,
    rigger: u64,
    t: ParachuteType,
    id: Seq<u8>,
    other: Seq<u8>,
    location: Seq<u8>,
    date: Seq<u8>,
    repair: Seq<u8>,
)
    requires
        s.store(t).parachutes.contains_key(id),
        !s.parachute(t, id).active,
    ensures
        s.is_qualified_rigger(rigger) ==> s.repair(rigger, id, t, date, repair).1 == Err::<(), Error>(Error::ParachuteRetired),
        s.is_qualified_rigger(rigger) ==> s.retire(rigger, id, t, date).1 == Err::<(), Error>(Error::ParachuteRetired),
        t == ParachuteType::Drogue ==> s.rig(rigger, id, t, None, location, date).1 == Err::<(), Error>(Error::ParachuteRetired),
        t == ParachuteType::Drogue ==> s.rig(rigger, other, ParachuteType::Main, Some(id), location, date).1
            == Err::<(), Error>(Error::DrogueRetired),
        (t == ParachuteType::Main && s.drogues.parachutes.contains_key(other) && s.drogues.parachutes[other].active)
            ==> s.rig(rigger, id, t, Some(other), location, date).1 == Err::<(), Error>(Error::ParachuteRetired),
        (t == ParachuteType::Reserve && s.is_qualified_rigger(rigger))
            ==> s.rig(rigger, id, t, None, location, date).1 == Err::<(), Error>(Error::ParachuteRetired),
{
}

/// Only a Senior or Master rigger can put a parachute into service, repair
/// or retire one, or rig a reserve.
pub proof fn lemma_only_qualified_riggers(s: PalletView, c: Call)
    ensures
        s.step(c).1 is Ok ==> match c {
            Call::InService { rigger, .. } => s.is_qualified_rigger(rigger),
            Call::Repair { rigger, .. } => s.is_qualified_rigger(rigger),
            Call::Retire { rigger, .. } => s.is_qualified_rigger(rigger),
            Call::Rig { rigger, t, .. } => t == ParachuteType::Reserve ==> s.is_qualified_rigger(rigger),
            _ => true,
        },
{
}

/// Whether no ledger nonce of `a` is above the corresponding one of `b`.
pub open spec fn nonces_le(a: PalletView, b: PalletView) -> bool {
    &&& a.in_service_nonce <= b.in_service_nonce
    &&& a.repair_nonce <= b.repair_nonce
    &&& a.retire_nonce <= b.retire_nonce
    &&& a.drogues.rigged_nonce <= b.drogues.rigged_nonce
    &&& a.mains.rigged_nonce <= b.mains.rigged_nonce
    &&& a.reserves.rigged_nonce <= b.reserves.rigged_nonce
}

/// Ledger nonces never go back, and a call that records something under a
/// nonce below the largest value moves that nonce on.
pub proof fn lemma_nonces_move_forward(s: PalletView, c: Call)
    ensures
        nonces_le(s, s.step(c).0),
        (s.step(c).1 is Ok && s.nonce_used(c) is Some && s.nonce_used(c)->0 < u32::MAX) ==> match c {
            Call::InService { .. } => s.step(c).0.in_service_nonce == s.nonce_used(c)->0 + 1,
            Call::Rig { t, .. } => s.step(c).0.store(t).rigged_nonce == s.nonce_used(c)->0 + 1,
            Call::Repair { .. } => s.step(c).0.repair_nonce == s.nonce_used(c)->0 + 1,
            Call::Retire { .. } => s.step(c).0.retire_nonce == s.nonce_used(c)->0 + 1,
            _ => true,
        },
{
    lemma_step_stores(s, c, ParachuteType::Drogue);
    lemma_step_stores(s, c, ParachuteType::Main);
    lemma_step_stores(s, c, ParachuteType::Reserve);
}

/// A parachute's owner, model and in-service key are fixed once it is in
/// service: no call changes them.
pub proof fn lemma_service_data_fixed(s: PalletView, c: Call, t: ParachuteType, id: Seq<u8>)
    requires
        s.store(t).parachutes.contains_key(id),
    ensures
        s.step(c).0.parachute(t, id).owner == s.parachute(t, id).owner,
        s.step(c).0.parachute(t, id).model == s.parachute(t, id).model,
        s.step(c).0.parachute(t, id).in_service == s.parachute(t, id).in_service,
{
    lemma_step_stores(s, c, t);
}

/// Each successful call deposits exactly one event, after those already
/// deposited; a refused call deposits none.
pub proof fn lemma_one_event_per_success(s: PalletView, c: Call)
    ensures
        s.step(c).1 is Ok ==> s.step(c).0.events.len() == s.events.len() + 1
            && s.step(c).0.events.subrange(0, s.events.len() as int) == s.events,
        s.step(c).1 is Err ==> s.step(c).0.events == s.events,
{
    lemma_step_stores(s, c, ParachuteType::Drogue);
    if s.step(c).1 is Ok {
        assert(s.step(c).0.events.subrange(0, s.events.len() as int) =~= s.events);
    }
}

/// Each registered parachute is active exactly when it carries no retire key.
pub open spec fn active_iff_unretired(s: PalletView) -> bool {
    forall|t: ParachuteType, id: Seq<u8>| #[trigger] s.store(t).parachutes.contains_key(id)
        ==> (s.parachute(t, id).active <==> s.parachute(t, id).retired is None)
}

/// A parachute is active exactly when it is not retired, after every call
/// that runs to an outcome, whatever its result: a new parachute is active
/// with no retire key, retiring sets both together, and no other call
/// touches either.
pub proof fn lemma_active_iff_unretired(s: PalletView, c: Call)
    requires
        active_iff_unretired(s),
        s.call_defined(c),
    ensures
        active_iff_unretired(s.step(c).0),
{
    let s2 = s.step(c).0;
    assert forall|t: ParachuteType, id: Seq<u8>| #[trigger] s2.store(t).parachutes.contains_key(id)
        implies (s2.parachute(t, id).active <==> s2.parachute(t, id).retired is None) by {
        lemma_step_stores(s, c, t);
        if s.store(t).parachutes.contains_key(id) {
            assert(s.parachute(t, id).active <==> s.parachute(t, id).retired is None);
        }
        match c {
            Call::Rig { t: ct, id: cid, .. } => {
                if s.step(c).1 is Ok && ct == t && cid == id {
                    assert(s.store(t).parachutes.contains_key(id));
                }
            },
            Call::Repair { t: ct, id: cid, rigger, .. } => {
                if s.step(c).1 is Ok && ct == t && cid == id {
                    assert(s.is_qualified_rigger(rigger));
                    assert(s.store(t).parachutes.contains_key(id));
                }
            },
            _ => {},
        }
    }
}

/// The storage after the calls `cs`, one after the other.
pub open spec fn run(s: PalletView, cs: Seq<Call>) -> PalletView
    decreases cs.len(),
{
    if cs.len() == 0 {
        s
    } else {
        run(s.step(cs[0]).0, cs.drop_first())
    }
}

/// Whether call `c` would record something about parachute `id` of type
/// `t`: put it into service, rig, repair or retire it, or, for a drogue,
/// rig a main with it.
pub open spec fn targets(c: Call, t: ParachuteType, id: Seq<u8>) -> bool {
    match c {
        Call::InService { t: ct, id: cid, .. } => ct == t && cid == id,
        Call::Rig { t: ct, id: cid, drogue, .. } => (ct == t && cid == id)
            || (t == ParachuteType::Drogue && ct == ParachuteType::Main && drogue == Some(id)),
        Call::Repair { t: ct, id: cid, .. } => ct == t && cid == id,
        Call::Retire { t: ct, id: cid, .. } => ct == t && cid == id,
        _ => false,
    }
}

proof fn lemma_retired_target_refused(s: PalletView, c: Call, t: ParachuteType, id: Seq<u8>)
    requires
        s.store(t).parachutes.contains_key(id),
        !s.parachute(t, id).active,
        targets(c, t, id),
    ensures
        s.step(c).1 is Err,
{
}

/// Retirement is final over any sequence of calls: a retired parachute
/// stays registered and retired under the same retire key, and every later
/// call that would record something about it (putting it into service,
/// rigging, repairing or retiring it, or rigging a main with it as the
/// drogue) is refused.
pub proof fn lemma_retired_for_good(s: PalletView, cs: Seq<Call>, c: Call, t: ParachuteType, id: Seq<u8>)
    requires
        s.store(t).parachutes.contains_key(id),
        !s.parachute(t, id).active,
    ensures
        run(s, cs).store(t).parachutes.contains_key(id),
        !run(s, cs).parachute(t, id).active,
        run(s, cs).parachute(t, id).retired == s.parachute(t, id).retired,
        targets(c, t, id) ==> run(s, cs).step(c).1 is Err,
    decreases cs.len(),
{
    if cs.len() > 0 {
        lemma_retirement_is_final(s, cs[0], t, id);
        lemma_retired_for_good(s.step(cs[0]).0, cs.drop_first(), c, t, id);
    } else if targets(c, t, id) {
        lemma_retired_target_refused(s, c, t, id);
    }
}

/// After a successful `retire` of parachute `id` of type `t` under retire
/// key `n`, whatever calls follow, the parachute stays inactive with retire
/// key `n`, and every call that would record something about it is refused.
pub proof fn lemma_retire_is_forever(
    s: PalletView,
    rigger: u64,
    id: Seq<u8>,
    t: ParachuteType,
    date: Seq<u8>,
    cs: Seq<Call>,
    c: Call,
)
    requires
        s.retire_defined(rigger, id, t),
        s.retire(rigger, id, t, date).1 is Ok,
    ensures
        !run(s.retire(rigger, id, t, date).0, cs).parachute(t, id).active,
        run(s.retire(rigger, id, t, date).0, cs).parachute(t, id).retired == Some(s.retire_nonce),
        targets(c, t, id) ==> run(s.retire(rigger, id, t, date).0, cs).step(c).1 is Err,
{
    let s2 = s.retire(rigger, id, t, date).0;
    lemma_step_stores(s, Call::Retire { rigger, id, t, date }, t);
    assert(s2 == s.step(Call::Retire { rigger, id, t, date }).0);
    lemma_retired_for_good(s2, cs, c, t, id);
}

/// `NotQualified` comes exactly from an uncertified rigger: putting into
/// service, repairing and retiring are refused with it exactly when the
/// rigger is neither Senior nor Master, and rigging exactly when, besides,
/// the parachute is a reserve; drogues and mains need no certification.
pub proof fn lemma_not_qualified_exactly(
    s: PalletView,
    rigger: u64,
    t: ParachuteType,
    id: Seq<u8>,
    owner: Seq<u8>,
    model: ParachuteModel,
    drogue: Option<Seq<u8>>,
    location: Seq<u8>,
    date: Seq<u8>,
    repair: Seq<u8>,
)
    ensures
        (s.in_service(rigger, t, owner, model, id, date).1 == Err::<(), Error>(Error::NotQualified))
            == !s.is_qualified_rigger(rigger),
        (s.rig(rigger, id, t, drogue, location, date).1 == Err::<(), Error>(Error::NotQualified))
            == (t == ParachuteType::Reserve && !s.is_qualified_rigger(rigger)),
        (s.repair(rigger, id, t, date, repair).1 == Err::<(), Error>(Error::NotQualified))
            == !s.is_qualified_rigger(rigger),
        (s.retire(rigger, id, t, date).1 == Err::<(), Error>(Error::NotQualified))
            == !s.is_qualified_rigger(rigger),
{
}

/// Setting a certification succeeds exactly for a smokejumper with a loft
/// who holds another certification; it then leaves the smokejumper with the
/// certification asked for (Uncertified included, which takes the
/// certification away), keeps its key lists and every other loft, and
/// reports the change.
pub proof fn lemma_set_rigger_sets(s: PalletView, who: u64, rigger: Rigger, other: u64)
    ensures
        s.set_rigger(who, rigger).1 is Ok <==> (s.riggers.contains_key(who) && s.riggers[who].rigger != rigger),
        s.set_rigger(who, rigger).1 is Ok ==> {
            let s2 = s.set_rigger(who, rigger).0;
            &&& s2.riggers.contains_key(who)
            &&& s2.riggers[who].rigger == rigger
            &&& s2.is_qualified_rigger(who) == is_qualified(rigger)
            &&& s2.riggers[who].in_service == s.riggers[who].in_service
            &&& s2.riggers[who].drogues_rigged == s.riggers[who].drogues_rigged
            &&& s2.riggers[who].mains_rigged == s.riggers[who].mains_rigged
            &&& s2.riggers[who].reserves_rigged == s.riggers[who].reserves_rigged
            &&& s2.riggers[who].repairs == s.riggers[who].repairs
            &&& s2.riggers[who].retires == s.riggers[who].retires
            &&& other != who ==> s2.riggers.contains_key(other) == s.riggers.contains_key(other)
                && s2.riggers[other] == s.riggers[other]
            &&& s2.events == s.events.push(EventView::RiggerChanged { who, rigger })
        },
{
}

/// Putting a parachute into service succeeds exactly for a Senior or Master
/// rigger and an identifier not yet registered for that type. It then
/// registers the parachute as active with the given owner and model under
/// the in-service nonce `n`, with no rigs, repairs or retire key; records
/// under `n` who put it into service, which parachute and the date given;
/// appends `n` to the rigger's in-service list; and reports it.
pub proof fn lemma_in_service_records(
    s: PalletView,
    rigger: u64,
    t: ParachuteType,
    owner: Seq<u8>,
    model: ParachuteModel,
    id: Seq<u8>,
    date: Seq<u8>,
)
    requires
        s.riggers.contains_key(rigger),
    ensures
        s.in_service(rigger, t, owner, model, id, date).1 is Ok
            <==> (s.is_qualified_rigger(rigger) && !s.store(t).parachutes.contains_key(id)),
        s.in_service(rigger, t, owner, model, id, date).1 is Ok ==> {
            let s2 = s.in_service(rigger, t, owner, model, id, date).0;
            let n = s.in_service_nonce;
            &&& s2.store(t).parachutes.contains_key(id)
            &&& s2.parachute(t, id).active
            &&& s2.parachute(t, id).owner == owner
            &&& s2.parachute(t, id).model == model
            &&& s2.parachute(t, id).in_service == n
            &&& s2.parachute(t, id).rigs.len() == 0
            &&& s2.parachute(t, id).repairs.len() == 0
            &&& s2.parachute(t, id).retired is None
            &&& s2.in_service.contains_key(n)
            &&& s2.in_service[n].who == rigger
            &&& s2.in_service[n].parachute == id
            &&& s2.in_service[n].date == date
            &&& s2.riggers[rigger].in_service == s.riggers[rigger].in_service.push(n)
            &&& s2.in_service_nonce == bump(n)
            &&& s2.events == s.events.push(EventView::ParachuteInService { who: rigger, parachute: id })
        },
{
    let n = s.in_service_nonce;
    let st = s.store(t);
    let st2 = StoreView { parachutes: st.parachutes.insert(id, ParachuteView::fresh(owner, model, n)), ..st };
    lemma_with_store(s, t, st2, t);
}

/// Rigging succeeds exactly when: for a drogue, it is active; for a main,
/// its drogue is registered and active and the main is active; for a
/// reserve, the rigger is Senior or Master and the reserve is active. It
/// then records under the type's rigging nonce `n` who rigged which
/// parachute, where and when, with the drogue given for a main and none
/// otherwise; appends `n` to the parachute's rigs and to the rigger's list
/// for that type; moves the nonce on; and reports it.
pub proof fn lemma_rig_records(
    s: PalletView,
    rigger: u64,
    id: Seq<u8>,
    t: ParachuteType,
    drogue: Option<Seq<u8>>,
    location: Seq<u8>,
    date: Seq<u8>,
)
    requires
        s.rig_defined(rigger, id, t, drogue),
    ensures
        s.rig(rigger, id, t, drogue, location, date).1 is Ok <==> match t {
            ParachuteType::Drogue => s.drogues.parachutes[id].active,
            ParachuteType::Main => s.drogues.parachutes.contains_key(drogue->0)
                && s.drogues.parachutes[drogue->0].active && s.mains.parachutes[id].active,
            ParachuteType::Reserve => s.is_qualified_rigger(rigger) && s.reserves.parachutes[id].active,
        },
        s.rig(rigger, id, t, drogue, location, date).1 is Ok ==> {
            let s2 = s.rig(rigger, id, t, drogue, location, date).0;
            let n = s.store(t).rigged_nonce;
            &&& s2.store(t).rigged.contains_key(n)
            &&& s2.store(t).rigged[n].who == rigger
            &&& s2.store(t).rigged[n].parachute == id
            &&& s2.store(t).rigged[n].drogue == (if t == ParachuteType::Main { drogue } else { None })
            &&& s2.store(t).rigged[n].location == location
            &&& s2.store(t).rigged[n].date == date
            &&& s2.store(t).rigged_nonce == bump(n)
            &&& s2.store(t).parachutes.contains_key(id)
            &&& s2.parachute(t, id).rigs == s.parachute(t, id).rigs.push(n)
            &&& s2.parachute(t, id).repairs == s.parachute(t, id).repairs
            &&& s2.parachute(t, id).active
            &&& s2.riggers[rigger].rigged(t) == s.riggers[rigger].rigged(t).push(n)
            &&& s2.riggers[rigger].rigger == s.riggers[rigger].rigger
            &&& s2.events == s.events.push(EventView::ParachuteRigged { who: rigger, parachute: id })
        },
{
    if s.rig(rigger, id, t, drogue, location, date).1 is Ok {
        let d = if t == ParachuteType::Main { drogue } else { None };
        let st = s.store(t);
        let n = st.rigged_nonce;
        let p = st.parachutes[id];
        let st2 = StoreView {
            parachutes: st.parachutes.insert(id, ParachuteView { rigs: p.rigs.push(n), ..p }),
            rigged: st.rigged.insert(n, RiggingView { who: rigger, parachute: id, drogue: d, location, date }),
            rigged_nonce: bump(n),
        };
        assert(s.rig(rigger, id, t, drogue, location, date).0 == s.record_rig(rigger, t, id, d, location, date));
        lemma_with_store(s, t, st2, t);
        match t {
            ParachuteType::Drogue => {},
            ParachuteType::Main => {},
            ParachuteType::Reserve => {},
        }
    }
}

/// Repairing succeeds exactly for a Senior or Master rigger and an active
/// parachute. It then records under the repair nonce `n` who repaired which
/// parachute, the date and the repair given; appends `n` to the parachute's
/// and the rigger's repair lists; moves the nonce on; and reports it.
pub proof fn lemma_repair_records(
    s: PalletView,
    rigger: u64,
    id: Seq<u8>,
    t: ParachuteType,
    date: Seq<u8>,
    repair: Seq<u8>,
)
    requires
        s.repair_defined(rigger, id, t),
    ensures
        s.repair(rigger, id, t, date, repair).1 is Ok <==> (s.is_qualified_rigger(rigger) && s.parachute(t, id).active),
        s.repair(rigger, id, t, date, repair).1 is Ok ==> {
            let s2 = s.repair(rigger, id, t, date, repair).0;
            let n = s.repair_nonce;
            &&& s2.repairs.contains_key(n)
            &&& s2.repairs[n].who == rigger
            &&& s2.repairs[n].parachute == id
            &&& s2.repairs[n].date == date
            &&& s2.repairs[n].repair == repair
            &&& s2.repair_nonce == bump(n)
            &&& s2.store(t).parachutes.contains_key(id)
            &&& s2.parachute(t, id).repairs == s.parachute(t, id).repairs.push(n)
            &&& s2.parachute(t, id).rigs == s.parachute(t, id).rigs
            &&& s2.parachute(t, id).active
            &&& s2.riggers[rigger].repairs == s.riggers[rigger].repairs.push(n)
            &&& s2.events == s.events.push(EventView::ParachuteRepaired { who: rigger, parachute: id })
        },
{
    if s.repair(rigger, id, t, date, repair).1 is Ok {
        let st = s.store(t);
        let p = st.parachutes[id];
        let st2 = StoreView {
            parachutes: st.parachutes.insert(id, ParachuteView { repairs: p.repairs.push(s.repair_nonce), ..p }),
            ..st
        };
        lemma_with_store(s, t, st2, t);
    }
}

/// Retiring succeeds exactly for a Senior or Master rigger and an active
/// parachute. It then marks the parachute inactive under the retire nonce
/// `n`; records under `n` who retired which parachute and the date given;
/// appends `n` to the rigger's retire list; moves the nonce on; and reports
/// it.
pub proof fn lemma_retire_records(s: PalletView, rigger: u64, id: Seq<u8>, t: ParachuteType, date: Seq<u8>)
    requires
        s.retire_defined(rigger, id, t),
    ensures
        s.retire(rigger, id, t, date).1 is Ok <==> (s.is_qualified_rigger(rigger) && s.parachute(t, id).active),
        s.retire(rigger, id, t, date).1 is Ok ==> {
            let s2 = s.retire(rigger, id, t, date).0;
            let n = s.retire_nonce;
            &&& s2.retires.contains_key(n)
            &&& s2.retires[n].who == rigger
            &&& s2.retires[n].parachute == id
            &&& s2.retires[n].date == date
            &&& s2.retire_nonce == bump(n)
            &&& s2.store(t).parachutes.contains_key(id)
            &&& !s2.parachute(t, id).active
            &&& s2.parachute(t, id).retired == Some(n)
            &&& s2.parachute(t, id).rigs == s.parachute(t, id).rigs
            &&& s2.parachute(t, id).repairs == s.parachute(t, id).repairs
            &&& s2.riggers[rigger].retires == s.riggers[rigger].retires.push(n)
            &&& s2.events == s.events.push(EventView::ParachuteRetired { who: rigger, parachute: id })
        },
{
    if s.retire(rigger, id, t, date).1 is Ok {
        let st = s.store(t);
        let p = st.parachutes[id];
        let st2 = StoreView {
            parachutes: st.parachutes.insert(id, ParachuteView { active: false, retired: Some(s.retire_nonce), ..p }),
            ..st
        };
        lemma_with_store(s, t, st2, t);
    }
}

/// How call `c` changes the store of type `u`: only a call on parachutes of
/// type `u` changes it, by one insertion into its registry (and, for a rig,
/// into its rigging ledger).
proof fn lemma_step_stores(s: PalletView, c: Call, u: ParachuteType)
    ensures
        match c {
            Call::InService { t, id, owner, model, .. } => s.step(c).1 is Ok && t == u ==>
                s.step(c).0.store(u).parachutes == s.store(u).parachutes.insert(id, ParachuteView::fresh(owner, model, s.in_service_nonce))
                && s.step(c).0.store(u).rigged == s.store(u).rigged
                && s.step(c).0.store(u).rigged_nonce == s.store(u).rigged_nonce,
            Call::Rig { t, id, .. } => s.step(c).1 is Ok && t == u ==>
                s.step(c).0.store(u).parachutes[id].owner == s.store(u).parachutes[id].owner
                && s.step(c).0.store(u).parachutes[id].model == s.store(u).parachutes[id].model
                && s.step(c).0.store(u).parachutes[id].in_service == s.store(u).parachutes[id].in_service
                && s.step(c).0.store(u).parachutes.dom() == s.store(u).parachutes.dom().insert(id)
                && s.step(c).0.store(u).parachutes == s.store(u).parachutes.insert(id, s.step(c).0.store(u).parachutes[id])
                && s.step(c).0.store(u).parachutes[id].active == s.store(u).parachutes[id].active
                && s.step(c).0.store(u).parachutes[id].retired == s.store(u).parachutes[id].retired
                && s.step(c).0.store(u).rigged_nonce == bump(s.store(u).rigged_nonce),
            Call::Repair { t, id, .. } => s.step(c).1 is Ok && t == u ==>
                s.step(c).0.store(u).parachutes[id].owner == s.store(u).parachutes[id].owner
                && s.step(c).0.store(u).parachutes[id].model == s.store(u).parachutes[id].model
                && s.step(c).0.store(u).parachutes[id].in_service == s.store(u).parachutes[id].in_service
                && s.step(c).0.store(u).parachutes == s.store(u).parachutes.insert(id, s.step(c).0.store(u).parachutes[id])
                && s.step(c).0.store(u).parachutes[id].active == s.store(u).parachutes[id].active
                && s.step(c).0.store(u).parachutes[id].retired == s.store(u).parachutes[id].retired
                && s.step(c).0.store(u).rigged == s.store(u).rigged
                && s.step(c).0.store(u).rigged_nonce == s.store(u).rigged_nonce,
            Call::Retire { t, id, .. } => s.step(c).1 is Ok && t == u ==>
                s.step(c).0.store(u).parachutes[id].owner == s.store(u).parachutes[id].owner
                && s.step(c).0.store(u).parachutes[id].model == s.store(u).parachutes[id].model
                && s.step(c).0.store(u).parachutes[id].in_service == s.store(u).parachutes[id].in_service
                && s.step(c).0.store(u).parachutes == s.store(u).parachutes.insert(id, s.step(c).0.store(u).parachutes[id])
                && !s.step(c).0.store(u).parachutes[id].active
                && s.step(c).0.store(u).parachutes[id].retired == Some(s.retire_nonce)
                && s.step(c).0.store(u).rigged == s.store(u).rigged
                && s.step(c).0.store(u).rigged_nonce == s.store(u).rigged_nonce,
            _ => true,
        },
        (s.step(c).1 is Err || match c {
            Call::InService { t, .. } => t != u,
            Call::Rig { t, .. } => t != u,
            Call::Repair { t, .. } => t != u,
            Call::Retire { t, .. } => t != u,
            _ => true,
        }) ==> s.step(c).0.store(u) == s.store(u),
        s.step(c).1 is Ok ==> s.step(c).0.riggers.dom() =~= s.riggers.dom().insert(match c {
            Call::CreateLoftId { who } => who,
            Call::SetRigger { who, .. } => who,
            Call::InService { rigger, .. } => rigger,
            Call::Rig { rigger, .. } => rigger,
            Call::Repair { rigger, .. } => rigger,
            Call::Retire { rigger, .. } => rigger,
        }),
{
    match c {
        Call::CreateLoftId { who } => {},
        Call::SetRigger { who, rigger } => {},
        Call::InService { rigger, t, owner, model, id, date } => {
            if s.step(c).1 is Ok {
                let n = s.in_service_nonce;
                let st = s.store(t);
                let st2 = StoreView { parachutes: st.parachutes.insert(id, ParachuteView::fresh(owner, model, n)), ..st };
                lemma_with_store(s, t, st2, u);
            }
        },
        Call::Rig { rigger, id, t, drogue, location, date } => {
            if s.step(c).1 is Ok {
                let d = match t { ParachuteType::Main => Some(drogue->0), _ => None };
                let st = s.store(t);
                let n = st.rigged_nonce;
                let p = st.parachutes[id];
                let st2 = StoreView {
                    parachutes: st.parachutes.insert(id, ParachuteView { rigs: p.rigs.push(n), ..p }),
                    rigged: st.rigged.insert(n, RiggingView { who: rigger, parachute: id, drogue: d, location, date }),
                    rigged_nonce: bump(n),
                };
                lemma_with_store(s, t, st2, u);
                assert(s.step(c).0 == s.record_rig(rigger, t, id, d, location, date));
            }
        },
        Call::Repair { rigger, id, t, date, repair } => {
            if s.step(c).1 is Ok {
                let st = s.store(t);
                let p = st.parachutes[id];
                let st2 = StoreView {
                    parachutes: st.parachutes.insert(id, ParachuteView { repairs: p.repairs.push(s.repair_nonce), ..p }),
                    ..st
                };
                lemma_with_store(s, t, st2, u);
            }
        },
        Call::Retire { rigger, id, t, date } => {
            if s.step(c).1 is Ok {
                let st = s.store(t);
                let p = st.parachutes[id];
                let st2 = StoreView {
                    parachutes: st.parachutes.insert(id, ParachuteView { active: false, retired: Some(s.retire_nonce), ..p }),
                    ..st
                };
                lemma_with_store(s, t, st2, u);
            }
        },
    }
}

} // verus!
