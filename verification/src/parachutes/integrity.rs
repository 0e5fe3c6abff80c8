use vstd::prelude::*;

use crate::dispatch::bump;
use super::spec::{lemma_with_store, Call, PalletView, StoreView};
use super::types::{LoftView, ParachuteModel, ParachuteType, ParachuteView, Rigger, RiggingView};

verus! {

/// Every key of `m` is below `n`.
pub open spec fn keys_below<V>(m: Map<u32, V>, n: u32) -> bool {
    forall|k: u32| #[trigger] m.contains_key(k) ==> k < n
}

/// Parachute `id` of type `t` is active exactly when it carries no retire
/// key, and each key it carries leads to a ledger record about it.
pub open spec fn parachute_consistent(s: PalletView, t: ParachuteType, id: Seq<u8>) -> bool {
    let st = s.store(t);
    let p = st.parachutes[id];
    &&& (p.active <==> p.retired is None)
    &&& s.in_service.contains_key(p.in_service)
    &&& s.in_service[p.in_service].parachute == id
    &&& forall|i: int|
        0 <= i < p.rigs.len() ==> st.rigged.contains_key(#[trigger] p.rigs[i]) && st.rigged[p.rigs[i]].parachute == id
    &&& forall|i: int|
        0 <= i < p.repairs.len() ==> s.repairs.contains_key(#[trigger] p.repairs[i]) && s.repairs[p.repairs[i]].parachute == id
    &&& p.retired is Some ==> s.retires.contains_key(p.retired->0) && s.retires[p.retired->0].parachute == id
}

/// The store of type `t` keeps its rigging keys below its nonce, and all of
/// its parachutes are consistent.
pub open spec fn store_consistent(s: PalletView, t: ParachuteType) -> bool {
    &&& keys_below(s.store(t).rigged, s.store(t).rigged_nonce)
    &&& forall|id: Seq<u8>| #[trigger] s.store(t).parachutes.contains_key(id) ==> parachute_consistent(s, t, id)
}

/// Every key in the loft of `who` leads to a ledger record made by `who`.
pub open spec fn loft_consistent(s: PalletView, who: u64) -> bool {
    let l = s.riggers[who];
    &&& forall|i: int|
        0 <= i < l.in_service.len() ==> s.in_service.contains_key(#[trigger] l.in_service[i]) && s.in_service[l.in_service[i]].who == who
    &&& forall|i: int|
        0 <= i < l.drogues_rigged.len() ==> s.drogues.rigged.contains_key(#[trigger] l.drogues_rigged[i]) && s.drogues.rigged[l.drogues_rigged[i]].who == who
    &&& forall|i: int|
        0 <= i < l.mains_rigged.len() ==> s.mains.rigged.contains_key(#[trigger] l.mains_rigged[i]) && s.mains.rigged[l.mains_rigged[i]].who == who
    &&& forall|i: int|
        0 <= i < l.reserves_rigged.len() ==> s.reserves.rigged.contains_key(#[trigger] l.reserves_rigged[i]) && s.reserves.rigged[l.reserves_rigged[i]].who == who
    &&& forall|i: int|
        0 <= i < l.repairs.len() ==> s.repairs.contains_key(#[trigger] l.repairs[i]) && s.repairs[l.repairs[i]].who == who
    &&& forall|i: int|
        0 <= i < l.retires.len() ==> s.retires.contains_key(#[trigger] l.retires[i]) && s.retires[l.retires[i]].who == who
}

/// The ledgers hold together: ledger keys stay below their nonces, and every
/// key kept by a parachute or a loft leads to the record it stands for.
pub open spec fn ledgers_consistent(s: PalletView) -> bool {
    &&& keys_below(s.in_service, s.in_service_nonce)
    &&& keys_below(s.repairs, s.repair_nonce)
    &&& keys_below(s.retires, s.retire_nonce)
    &&& store_consistent(s, ParachuteType::Drogue)
    &&& store_consistent(s, ParachuteType::Main)
    &&& store_consistent(s, ParachuteType::Reserve)
    &&& forall|who: u64| #[trigger] s.riggers.contains_key(who) ==> loft_consistent(s, who)
}

/// Empty storage is consistent.
pub proof fn lemma_initial_consistent(max_rigs: u32)
    ensures
        ledgers_consistent(PalletView::initial(max_rigs)),
{
}


/// Every entry of `m1` is in `m2`, with the same value.
pub open spec fn kept_in<V>(m1: Map<u32, V>, m2: Map<u32, V>) -> bool {
    forall|k: u32| #[trigger] m1.contains_key(k) ==> m2.contains_key(k) && m2[k] == m1[k]
}

/// The ledgers of `s` are all kept, record for record, in `s2`.
pub open spec fn ledgers_extended(s: PalletView, s2: PalletView) -> bool {
    &&& kept_in(s.in_service, s2.in_service)
    &&& kept_in(s.repairs, s2.repairs)
    &&& kept_in(s.retires, s2.retires)
    &&& kept_in(s.drogues.rigged, s2.drogues.rigged)
    &&& kept_in(s.mains.rigged, s2.mains.rigged)
    &&& kept_in(s.reserves.rigged, s2.reserves.rigged)
}

proof fn lemma_parachute_frame(s: PalletView, s2: PalletView, t: ParachuteType, id: Seq<u8>)
    requires
        parachute_consistent(s, t, id),
        s2.store(t).parachutes[id] == s.store(t).parachutes[id],
        ledgers_extended(s, s2),
    ensures
        parachute_consistent(s2, t, id),
{
    let p = s.store(t).parachutes[id];
    assert(s.in_service.contains_key(p.in_service));
    assert forall|i: int| 0 <= i < p.rigs.len() implies s2.store(t).rigged.contains_key(#[trigger] p.rigs[i])
        && s2.store(t).rigged[p.rigs[i]].parachute == id by {
        assert(s.store(t).rigged.contains_key(p.rigs[i]));
    }
    assert forall|i: int| 0 <= i < p.repairs.len() implies s2.repairs.contains_key(#[trigger] p.repairs[i])
        && s2.repairs[p.repairs[i]].parachute == id by {
        assert(s.repairs.contains_key(p.repairs[i]));
    }
    if p.retired is Some {
        assert(s.retires.contains_key(p.retired->0));
    }
}

proof fn lemma_store_frame(s: PalletView, s2: PalletView, t: ParachuteType)
    requires
        store_consistent(s, t),
        s2.store(t).parachutes == s.store(t).parachutes,
        s2.store(t).rigged_nonce == s.store(t).rigged_nonce,
        s2.store(t).rigged == s.store(t).rigged,
        ledgers_extended(s, s2),
    ensures
        store_consistent(s2, t),
{
    assert forall|id: Seq<u8>| #[trigger] s2.store(t).parachutes.contains_key(id) implies parachute_consistent(s2, t, id) by {
        assert(s.store(t).parachutes.contains_key(id));
        lemma_parachute_frame(s, s2, t, id);
    }
}

proof fn lemma_loft_frame(s: PalletView, s2: PalletView, who: u64, l: LoftView)
    requires
        loft_consistent(s, who),
        ledgers_extended(s, s2),
        s.riggers[who] == l,
    ensures
        loft_consistent(PalletView { riggers: s2.riggers.insert(who, l), ..s2 }, who),
{
    let s3 = PalletView { riggers: s2.riggers.insert(who, l), ..s2 };
    assert forall|i: int| 0 <= i < l.in_service.len() implies s3.in_service.contains_key(#[trigger] l.in_service[i])
        && s3.in_service[l.in_service[i]].who == who by {
        assert(s.in_service.contains_key(l.in_service[i]));
    }
    assert forall|i: int| 0 <= i < l.drogues_rigged.len() implies s3.drogues.rigged.contains_key(#[trigger] l.drogues_rigged[i])
        && s3.drogues.rigged[l.drogues_rigged[i]].who == who by {
        assert(s.drogues.rigged.contains_key(l.drogues_rigged[i]));
    }
    assert forall|i: int| 0 <= i < l.mains_rigged.len() implies s3.mains.rigged.contains_key(#[trigger] l.mains_rigged[i])
        && s3.mains.rigged[l.mains_rigged[i]].who == who by {
        assert(s.mains.rigged.contains_key(l.mains_rigged[i]));
    }
    assert forall|i: int| 0 <= i < l.reserves_rigged.len() implies s3.reserves.rigged.contains_key(#[trigger] l.reserves_rigged[i])
        && s3.reserves.rigged[l.reserves_rigged[i]].who == who by {
        assert(s.reserves.rigged.contains_key(l.reserves_rigged[i]));
    }
    assert forall|i: int| 0 <= i < l.repairs.len() implies s3.repairs.contains_key(#[trigger] l.repairs[i])
        && s3.repairs[l.repairs[i]].who == who by {
        assert(s.repairs.contains_key(l.repairs[i]));
    }
    assert forall|i: int| 0 <= i < l.retires.len() implies s3.retires.contains_key(#[trigger] l.retires[i])
        && s3.retires[l.retires[i]].who == who by {
        assert(s.retires.contains_key(l.retires[i]));
    }
}

/// The lofts other than `who` stay consistent when the ledgers only grow and
/// the lofts map changes at `who` alone.
proof fn lemma_other_lofts(s: PalletView, s2: PalletView, who: u64)
    requires
        ledgers_consistent(s),
        ledgers_extended(s, s2),
        s2.riggers.dom() == s.riggers.dom().insert(who),
        forall|w: u64| w != who && #[trigger] s.riggers.contains_key(w) ==> s2.riggers[w] == s.riggers[w],
    ensures
        forall|w: u64| w != who && #[trigger] s2.riggers.contains_key(w) ==> loft_consistent(s2, w),
{
    assert forall|w: u64| w != who && #[trigger] s2.riggers.contains_key(w) implies loft_consistent(s2, w) by {
        assert(s.riggers.contains_key(w));
        lemma_loft_frame(s, s2, w, s.riggers[w]);
        assert(s2.riggers.insert(w, s.riggers[w]) =~= s2.riggers);
        assert(PalletView { riggers: s2.riggers.insert(w, s.riggers[w]), ..s2 } == s2);
    }
}

proof fn lemma_create_loft_id_keeps(s: PalletView, who: u64)
    requires
        ledgers_consistent(s),
    ensures
        ledgers_consistent(s.create_loft_id(who).0),
{
    let s2 = s.create_loft_id(who).0;
    if s.create_loft_id(who).1 is Ok {
        assert(ledgers_extended(s, s2));
        lemma_store_frame(s, s2, ParachuteType::Drogue);
        lemma_store_frame(s, s2, ParachuteType::Main);
        lemma_store_frame(s, s2, ParachuteType::Reserve);
        lemma_other_lofts(s, s2, who);
    }
}

proof fn lemma_set_rigger_keeps(s: PalletView, who: u64, rigger: Rigger)
    requires
        ledgers_consistent(s),
    ensures
        ledgers_consistent(s.set_rigger(who, rigger).0),
{
    let s2 = s.set_rigger(who, rigger).0;
    if s.set_rigger(who, rigger).1 is Ok {
        assert(ledgers_extended(s, s2));
        lemma_store_frame(s, s2, ParachuteType::Drogue);
        lemma_store_frame(s, s2, ParachuteType::Main);
        lemma_store_frame(s, s2, ParachuteType::Reserve);
        lemma_other_lofts(s, s2, who);
        assert(s.riggers.contains_key(who));
        assert(loft_consistent(s, who));
    }
}


proof fn lemma_in_service_keeps(
    s: PalletView,
    rigger: u64,
    t: ParachuteType,
    owner: Seq<u8>,
    model: ParachuteModel,
    id: Seq<u8>,
    date: Seq<u8>,
)
    requires
        ledgers_consistent(s),
        s.in_service_defined(rigger, t, id),
        s.in_service_nonce < u32::MAX,
    ensures
        ledgers_consistent(s.in_service(rigger, t, owner, model, id, date).0),
{
    let s2 = s.in_service(rigger, t, owner, model, id, date).0;
    if s.in_service(rigger, t, owner, model, id, date).1 is Ok {
        let n = s.in_service_nonce;
        let st = s.store(t);
        let st2 = StoreView { parachutes: st.parachutes.insert(id, ParachuteView::fresh(owner, model, n)), ..st };
        lemma_with_store(s, t, st2, ParachuteType::Drogue);
        lemma_with_store(s, t, st2, ParachuteType::Main);
        lemma_with_store(s, t, st2, ParachuteType::Reserve);
        assert(kept_in(s.in_service, s2.in_service)) by {
            assert forall|k: u32| #[trigger] s.in_service.contains_key(k) implies s2.in_service.contains_key(k)
                && s2.in_service[k] == s.in_service[k] by {
                assert(k < n);
            }
        }
        assert(ledgers_extended(s, s2));
        assert(keys_below(s2.in_service, s2.in_service_nonce)) by {
            assert forall|k: u32| #[trigger] s2.in_service.contains_key(k) implies k < s2.in_service_nonce by {
                if k != n {
                    assert(s.in_service.contains_key(k));
                }
            }
        }
        assert forall|u: ParachuteType| u != t implies store_consistent(s2, u) by {
            assert(store_consistent(s, u)) by {
                match u {
                    ParachuteType::Drogue => {},
                    ParachuteType::Main => {},
                    ParachuteType::Reserve => {},
                }
            }
            lemma_store_frame(s, s2, u);
        }
        assert(store_consistent(s2, t)) by {
            assert(store_consistent(s, t)) by {
                match t {
                    ParachuteType::Drogue => {},
                    ParachuteType::Main => {},
                    ParachuteType::Reserve => {},
                }
            }
            assert forall|pid: Seq<u8>| #[trigger] s2.store(t).parachutes.contains_key(pid) implies parachute_consistent(s2, t, pid) by {
                if pid != id {
                    assert(s.store(t).parachutes.contains_key(pid));
                    lemma_parachute_frame(s, s2, t, pid);
                }
            }
        }
        assert(store_consistent(s2, ParachuteType::Drogue));
        assert(store_consistent(s2, ParachuteType::Main));
        assert(store_consistent(s2, ParachuteType::Reserve));
        lemma_other_lofts(s, s2, rigger);
        assert(loft_consistent(s2, rigger)) by {
            let l = s.riggers[rigger];
            assert(loft_consistent(s, rigger));
            lemma_loft_frame(s, s2, rigger, l);
            let l2 = s2.riggers[rigger];
            assert forall|i: int| 0 <= i < l2.in_service.len() implies s2.in_service.contains_key(#[trigger] l2.in_service[i])
                && s2.in_service[l2.in_service[i]].who == rigger by {
                if i < l.in_service.len() {
                    assert(l2.in_service[i] == l.in_service[i]);
                    assert(s.in_service.contains_key(l.in_service[i]));
                }
            }
        }
    }
}


proof fn lemma_rig_keeps(
    s: PalletView,
    rigger: u64,
    id: Seq<u8>,
    t: ParachuteType,
    drogue: Option<Seq<u8>>,
    location: Seq<u8>,
    date: Seq<u8>,
)
    requires
        ledgers_consistent(s),
        s.rig_defined(rigger, id, t, drogue),
        s.store(t).rigged_nonce < u32::MAX,
    ensures
        ledgers_consistent(s.rig(rigger, id, t, drogue, location, date).0),
{
    let s2 = s.rig(rigger, id, t, drogue, location, date).0;
    if s.rig(rigger, id, t, drogue, location, date).1 is Ok {
        let d = match t { ParachuteType::Main => Some(drogue->0), _ => None };
        assert(s2 == s.record_rig(rigger, t, id, d, location, date));
        let st = s.store(t);
        let n = st.rigged_nonce;
        let p = st.parachutes[id];
        assert(st.parachutes.contains_key(id));
        let rec = RiggingView { who: rigger, parachute: id, drogue: d, location, date };
        let st2 = StoreView {
            parachutes: st.parachutes.insert(id, ParachuteView { rigs: p.rigs.push(n), ..p }),
            rigged: st.rigged.insert(n, rec),
            rigged_nonce: bump(n),
        };
        lemma_with_store(s, t, st2, ParachuteType::Drogue);
        lemma_with_store(s, t, st2, ParachuteType::Main);
        lemma_with_store(s, t, st2, ParachuteType::Reserve);
        assert(store_consistent(s, t)) by {
            match t {
                ParachuteType::Drogue => {},
                ParachuteType::Main => {},
                ParachuteType::Reserve => {},
            }
        }
        assert(kept_in(st.rigged, st2.rigged)) by {
            assert forall|k: u32| #[trigger] st.rigged.contains_key(k) implies st2.rigged.contains_key(k)
                && st2.rigged[k] == st.rigged[k] by {
                assert(k < n);
            }
        }
        assert(ledgers_extended(s, s2)) by {
            match t {
                ParachuteType::Drogue => {},
                ParachuteType::Main => {},
                ParachuteType::Reserve => {},
            }
        }
        assert forall|u: ParachuteType| u != t implies store_consistent(s2, u) by {
            assert(store_consistent(s, u)) by {
                match u {
                    ParachuteType::Drogue => {},
                    ParachuteType::Main => {},
                    ParachuteType::Reserve => {},
                }
            }
            lemma_store_frame(s, s2, u);
        }
        assert(store_consistent(s2, t)) by {
            assert forall|k: u32| #[trigger] s2.store(t).rigged.contains_key(k) implies k < s2.store(t).rigged_nonce by {
                if k != n {
                    assert(st.rigged.contains_key(k));
                }
            }
            assert forall|pid: Seq<u8>| #[trigger] s2.store(t).parachutes.contains_key(pid) implies parachute_consistent(s2, t, pid) by {
                if pid != id {
                    assert(s.store(t).parachutes.contains_key(pid));
                    lemma_parachute_frame(s, s2, t, pid);
                } else {
                    assert(parachute_consistent(s, t, id));
                    let p2 = s2.store(t).parachutes[id];
                    assert forall|i: int| 0 <= i < p2.rigs.len() implies s2.store(t).rigged.contains_key(#[trigger] p2.rigs[i])
                        && s2.store(t).rigged[p2.rigs[i]].parachute == id by {
                        if i < p.rigs.len() {
                            assert(p2.rigs[i] == p.rigs[i]);
                            assert(st.rigged.contains_key(p.rigs[i]));
                        }
                    }
                    assert forall|i: int| 0 <= i < p2.repairs.len() implies s2.repairs.contains_key(#[trigger] p2.repairs[i])
                        && s2.repairs[p2.repairs[i]].parachute == id by {
                        assert(s.repairs.contains_key(p.repairs[i]));
                    }
                    if p.retired is Some {
                        assert(s.retires.contains_key(p.retired->0));
                    }
                    assert(s.in_service.contains_key(p.in_service));
                }
            }
        }
        assert(store_consistent(s2, ParachuteType::Drogue));
        assert(store_consistent(s2, ParachuteType::Main));
        assert(store_consistent(s2, ParachuteType::Reserve));
        lemma_other_lofts(s, s2, rigger);
        assert(loft_consistent(s2, rigger)) by {
            let l = s.riggers[rigger];
            assert(loft_consistent(s, rigger));
            lemma_loft_frame(s, s2, rigger, l);
            let l2 = s2.riggers[rigger];
            assert(l2 == l.push_rigged(t, n));
            match t {
                ParachuteType::Drogue => {
                    assert forall|i: int| 0 <= i < l2.drogues_rigged.len() implies s2.drogues.rigged.contains_key(#[trigger] l2.drogues_rigged[i])
                        && s2.drogues.rigged[l2.drogues_rigged[i]].who == rigger by {
                        if i < l.drogues_rigged.len() {
                            assert(l2.drogues_rigged[i] == l.drogues_rigged[i]);
                            assert(s.drogues.rigged.contains_key(l.drogues_rigged[i]));
                        }
                    }
                },
                ParachuteType::Main => {
                    assert forall|i: int| 0 <= i < l2.mains_rigged.len() implies s2.mains.rigged.contains_key(#[trigger] l2.mains_rigged[i])
                        && s2.mains.rigged[l2.mains_rigged[i]].who == rigger by {
                        if i < l.mains_rigged.len() {
                            assert(l2.mains_rigged[i] == l.mains_rigged[i]);
                            assert(s.mains.rigged.contains_key(l.mains_rigged[i]));
                        }
                    }
                },
                ParachuteType::Reserve => {
                    assert forall|i: int| 0 <= i < l2.reserves_rigged.len() implies s2.reserves.rigged.contains_key(#[trigger] l2.reserves_rigged[i])
                        && s2.reserves.rigged[l2.reserves_rigged[i]].who == rigger by {
                        if i < l.reserves_rigged.len() {
                            assert(l2.reserves_rigged[i] == l.reserves_rigged[i]);
                            assert(s.reserves.rigged.contains_key(l.reserves_rigged[i]));
                        }
                    }
                },
            }
        }
    }
}

proof fn lemma_repair_keeps(
    s: PalletView,
    rigger: u64,
    id: Seq<u8>,
    t: ParachuteType,
    date: Seq<u8>,
    repair: Seq<u8>,
)
    requires
        ledgers_consistent(s),
        s.repair_defined(rigger, id, t),
        s.repair_nonce < u32::MAX,
    ensures
        ledgers_consistent(s.repair(rigger, id, t, date, repair).0),
{
    let s2 = s.repair(rigger, id, t, date, repair).0;
    if s.repair(rigger, id, t, date, repair).1 is Ok {
        let n = s.repair_nonce;
        let st = s.store(t);
        let p = st.parachutes[id];
        let st2 = StoreView { parachutes: st.parachutes.insert(id, ParachuteView { repairs: p.repairs.push(n), ..p }), ..st };
        lemma_with_store(s, t, st2, ParachuteType::Drogue);
        lemma_with_store(s, t, st2, ParachuteType::Main);
        lemma_with_store(s, t, st2, ParachuteType::Reserve);
        assert(kept_in(s.repairs, s2.repairs)) by {
            assert forall|k: u32| #[trigger] s.repairs.contains_key(k) implies s2.repairs.contains_key(k)
                && s2.repairs[k] == s.repairs[k] by {
                assert(k < n);
            }
        }
        assert(ledgers_extended(s, s2));
        assert(keys_below(s2.repairs, s2.repair_nonce)) by {
            assert forall|k: u32| #[trigger] s2.repairs.contains_key(k) implies k < s2.repair_nonce by {
                if k != n {
                    assert(s.repairs.contains_key(k));
                }
            }
        }
        assert forall|u: ParachuteType| u != t implies store_consistent(s2, u) by {
            assert(store_consistent(s, u)) by {
                match u {
                    ParachuteType::Drogue => {},
                    ParachuteType::Main => {},
                    ParachuteType::Reserve => {},
                }
            }
            lemma_store_frame(s, s2, u);
        }
        assert(store_consistent(s, t)) by {
            match t {
                ParachuteType::Drogue => {},
                ParachuteType::Main => {},
                ParachuteType::Reserve => {},
            }
        }
        assert(store_consistent(s2, t)) by {
            assert forall|pid: Seq<u8>| #[trigger] s2.store(t).parachutes.contains_key(pid) implies parachute_consistent(s2, t, pid) by {
                if pid != id {
                    assert(s.store(t).parachutes.contains_key(pid));
                    lemma_parachute_frame(s, s2, t, pid);
                } else {
                    assert(parachute_consistent(s, t, id));
                    let p2 = s2.store(t).parachutes[id];
                    assert forall|i: int| 0 <= i < p2.rigs.len() implies s2.store(t).rigged.contains_key(#[trigger] p2.rigs[i])
                        && s2.store(t).rigged[p2.rigs[i]].parachute == id by {
                        assert(st.rigged.contains_key(p.rigs[i]));
                    }
                    assert forall|i: int| 0 <= i < p2.repairs.len() implies s2.repairs.contains_key(#[trigger] p2.repairs[i])
                        && s2.repairs[p2.repairs[i]].parachute == id by {
                        if i < p.repairs.len() {
                            assert(p2.repairs[i] == p.repairs[i]);
                            assert(s.repairs.contains_key(p.repairs[i]));
                        }
                    }
                    if p.retired is Some {
                        assert(s.retires.contains_key(p.retired->0));
                    }
                    assert(s.in_service.contains_key(p.in_service));
                }
            }
        }
        assert(store_consistent(s2, ParachuteType::Drogue));
        assert(store_consistent(s2, ParachuteType::Main));
        assert(store_consistent(s2, ParachuteType::Reserve));
        lemma_other_lofts(s, s2, rigger);
        assert(loft_consistent(s2, rigger)) by {
            let l = s.riggers[rigger];
            assert(loft_consistent(s, rigger));
            lemma_loft_frame(s, s2, rigger, l);
            let l2 = s2.riggers[rigger];
            assert forall|i: int| 0 <= i < l2.repairs.len() implies s2.repairs.contains_key(#[trigger] l2.repairs[i])
                && s2.repairs[l2.repairs[i]].who == rigger by {
                if i < l.repairs.len() {
                    assert(l2.repairs[i] == l.repairs[i]);
                    assert(s.repairs.contains_key(l.repairs[i]));
                }
            }
        }
    }
}

proof fn lemma_retire_keeps(s: PalletView, rigger: u64, id: Seq<u8>, t: ParachuteType, date: Seq<u8>)
    requires
        ledgers_consistent(s),
        s.retire_defined(rigger, id, t),
        s.retire_nonce < u32::MAX,
    ensures
        ledgers_consistent(s.retire(rigger, id, t, date).0),
{
    let s2 = s.retire(rigger, id, t, date).0;
    if s.retire(rigger, id, t, date).1 is Ok {
        let n = s.retire_nonce;
        let st = s.store(t);
        let p = st.parachutes[id];
        let st2 = StoreView { parachutes: st.parachutes.insert(id, ParachuteView { active: false, retired: Some(n), ..p }), ..st };
        lemma_with_store(s, t, st2, ParachuteType::Drogue);
        lemma_with_store(s, t, st2, ParachuteType::Main);
        lemma_with_store(s, t, st2, ParachuteType::Reserve);
        assert(kept_in(s.retires, s2.retires)) by {
            assert forall|k: u32| #[trigger] s.retires.contains_key(k) implies s2.retires.contains_key(k)
                && s2.retires[k] == s.retires[k] by {
                assert(k < n);
            }
        }
        assert(ledgers_extended(s, s2));
        assert(keys_below(s2.retires, s2.retire_nonce)) by {
            assert forall|k: u32| #[trigger] s2.retires.contains_key(k) implies k < s2.retire_nonce by {
                if k != n {
                    assert(s.retires.contains_key(k));
                }
            }
        }
        assert forall|u: ParachuteType| u != t implies store_consistent(s2, u) by {
            assert(store_consistent(s, u)) by {
                match u {
                    ParachuteType::Drogue => {},
                    ParachuteType::Main => {},
                    ParachuteType::Reserve => {},
                }
            }
            lemma_store_frame(s, s2, u);
        }
        assert(store_consistent(s, t)) by {
            match t {
                ParachuteType::Drogue => {},
                ParachuteType::Main => {},
                ParachuteType::Reserve => {},
            }
        }
        assert(store_consistent(s2, t)) by {
            assert forall|pid: Seq<u8>| #[trigger] s2.store(t).parachutes.contains_key(pid) implies parachute_consistent(s2, t, pid) by {
                if pid != id {
                    assert(s.store(t).parachutes.contains_key(pid));
                    lemma_parachute_frame(s, s2, t, pid);
                } else {
                    assert(parachute_consistent(s, t, id));
                    let p2 = s2.store(t).parachutes[id];
                    assert forall|i: int| 0 <= i < p2.rigs.len() implies s2.store(t).rigged.contains_key(#[trigger] p2.rigs[i])
                        && s2.store(t).rigged[p2.rigs[i]].parachute == id by {
                        assert(st.rigged.contains_key(p.rigs[i]));
                    }
                    assert forall|i: int| 0 <= i < p2.repairs.len() implies s2.repairs.contains_key(#[trigger] p2.repairs[i])
                        && s2.repairs[p2.repairs[i]].parachute == id by {
                        assert(s.repairs.contains_key(p.repairs[i]));
                    }
                    assert(s.in_service.contains_key(p.in_service));
                }
            }
        }
        assert(store_consistent(s2, ParachuteType::Drogue));
        assert(store_consistent(s2, ParachuteType::Main));
        assert(store_consistent(s2, ParachuteType::Reserve));
        lemma_other_lofts(s, s2, rigger);
        assert(loft_consistent(s2, rigger)) by {
            let l = s.riggers[rigger];
            assert(loft_consistent(s, rigger));
            lemma_loft_frame(s, s2, rigger, l);
            let l2 = s2.riggers[rigger];
            assert forall|i: int| 0 <= i < l2.retires.len() implies s2.retires.contains_key(#[trigger] l2.retires[i])
                && s2.retires[l2.retires[i]].who == rigger by {
                if i < l.retires.len() {
                    assert(l2.retires[i] == l.retires[i]);
                    assert(s.retires.contains_key(l.retires[i]));
                }
            }
        }
    }
}

/// The ledgers hold together across every call: a call that runs to an
/// outcome keeps every ledger key below its nonce and every key held by a
/// parachute or a loft leading to the record it stands for, unless the nonce
/// it records under has reached the largest value, where a new record would
/// overwrite the last one.
pub proof fn lemma_ledgers_stay_consistent(s: PalletView, c: Call)
    requires
        ledgers_consistent(s),
        s.call_defined(c),
        s.nonce_used(c) is Some ==> s.nonce_used(c)->0 < u32::MAX,
    ensures
        ledgers_consistent(s.step(c).0),
{
    match c {
        Call::CreateLoftId { who } => lemma_create_loft_id_keeps(s, who),
        Call::SetRigger { who, rigger } => lemma_set_rigger_keeps(s, who, rigger),
        Call::InService { rigger, t, owner, model, id, date } => lemma_in_service_keeps(s, rigger, t, owner, model, id, date),
        Call::Rig { rigger, id, t, drogue, location, date } => lemma_rig_keeps(s, rigger, id, t, drogue, location, date),
        Call::Repair { rigger, id, t, date, repair } => lemma_repair_keeps(s, rigger, id, t, date, repair),
        Call::Retire { rigger, id, t, date } => lemma_retire_keeps(s, rigger, id, t, date),
    }
}

} // verus!
