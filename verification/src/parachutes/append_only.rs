use vstd::prelude::*;

use crate::dispatch::bump;
use super::integrity::{
    keys_below, kept_in, ledgers_consistent, ledgers_extended, lemma_ledgers_stay_consistent,
    loft_consistent, parachute_consistent, store_consistent,
};
use super::spec::{lemma_with_store, Call, PalletView, StoreView};
use super::types::{LoftView, ParachuteType, ParachuteView, RiggingView};

verus! {

/// `m2` with next key `n2` is `m` with next key `n`, unchanged, or grown by
/// one record under `n` while the call recorded under `n`.
pub open spec fn grows_at<V>(m: Map<u32, V>, n: u32, m2: Map<u32, V>, n2: u32, used: Option<u32>) -> bool {
    ||| m2 == m && n2 == n
    ||| m2 == m.insert(n, m2[n]) && n2 == bump(n) && used == Some(n)
}

/// Each of the six ledgers with its nonce grows as `grows_at` says from `s`
/// to `s2`, where `used` is the nonce that the call recorded under.
pub open spec fn ledgers_grow_at(s: PalletView, s2: PalletView, used: Option<u32>) -> bool {
    &&& grows_at(s.in_service, s.in_service_nonce, s2.in_service, s2.in_service_nonce, used)
    &&& grows_at(s.repairs, s.repair_nonce, s2.repairs, s2.repair_nonce, used)
    &&& grows_at(s.retires, s.retire_nonce, s2.retires, s2.retire_nonce, used)
    &&& grows_at(s.drogues.rigged, s.drogues.rigged_nonce, s2.drogues.rigged, s2.drogues.rigged_nonce, used)
    &&& grows_at(s.mains.rigged, s.mains.rigged_nonce, s2.mains.rigged, s2.mains.rigged_nonce, used)
    &&& grows_at(s.reserves.rigged, s.reserves.rigged_nonce, s2.reserves.rigged, s2.reserves.rigged_nonce, used)
}

/// Every call either leaves a ledger and its nonce alone or adds one record
/// under the nonce it uses and moves that nonce on.
proof fn lemma_step_ledgers(s: PalletView, c: Call)
    ensures
        ledgers_grow_at(s, s.step(c).0, s.nonce_used(c)),
{
    let s2 = s.step(c).0;
    if s.step(c).1 is Ok {
        match c {
            Call::CreateLoftId { .. } => {},
            Call::SetRigger { .. } => {},
            Call::InService { rigger, t, owner, model, id, date } => {
                let st = s.store(t);
                let st2 = StoreView { parachutes: st.parachutes.insert(id, ParachuteView::fresh(owner, model, s.in_service_nonce)), ..st };
                lemma_with_store(s, t, st2, ParachuteType::Drogue);
                lemma_with_store(s, t, st2, ParachuteType::Main);
                lemma_with_store(s, t, st2, ParachuteType::Reserve);
                assert(s2.in_service == s.in_service.insert(s.in_service_nonce, s2.in_service[s.in_service_nonce]));
            },
            Call::Rig { rigger, id, t, drogue, location, date } => {
                let d = match t { ParachuteType::Main => Some(drogue->0), _ => None };
                let st = s.store(t);
                let n = st.rigged_nonce;
                let p = st.parachutes[id];
                let st2 = StoreView {
                    parachutes: st.parachutes.insert(id, ParachuteView { rigs: p.rigs.push(n), ..p }),
                    rigged: st.rigged.insert(n, RiggingView { who: rigger, parachute: id, drogue: d, location, date }),
                    rigged_nonce: bump(n),
                };
                assert(s2 == s.record_rig(rigger, t, id, d, location, date));
                lemma_with_store(s, t, st2, ParachuteType::Drogue);
                lemma_with_store(s, t, st2, ParachuteType::Main);
                lemma_with_store(s, t, st2, ParachuteType::Reserve);
                assert(s2.store(t).rigged == s.store(t).rigged.insert(n, s2.store(t).rigged[n]));
                match t {
                    ParachuteType::Drogue => {},
                    ParachuteType::Main => {},
                    ParachuteType::Reserve => {},
                }
            },
            Call::Repair { rigger, id, t, date, repair } => {
                let st = s.store(t);
                let p = st.parachutes[id];
                let st2 = StoreView {
                    parachutes: st.parachutes.insert(id, ParachuteView { repairs: p.repairs.push(s.repair_nonce), ..p }),
                    ..st
                };
                lemma_with_store(s, t, st2, ParachuteType::Drogue);
                lemma_with_store(s, t, st2, ParachuteType::Main);
                lemma_with_store(s, t, st2, ParachuteType::Reserve);
                assert(s2.repairs == s.repairs.insert(s.repair_nonce, s2.repairs[s.repair_nonce]));
            },
            Call::Retire { rigger, id, t, date } => {
                let st = s.store(t);
                let p = st.parachutes[id];
                let st2 = StoreView {
                    parachutes: st.parachutes.insert(id, ParachuteView { active: false, retired: Some(s.retire_nonce), ..p }),
                    ..st
                };
                lemma_with_store(s, t, st2, ParachuteType::Drogue);
                lemma_with_store(s, t, st2, ParachuteType::Main);
                lemma_with_store(s, t, st2, ParachuteType::Reserve);
                assert(s2.retires == s.retires.insert(s.retire_nonce, s2.retires[s.retire_nonce]));
            },
        }
    }
}

proof fn lemma_grows_kept<V>(m: Map<u32, V>, n: u32, m2: Map<u32, V>, n2: u32, used: Option<u32>)
    requires
        grows_at(m, n, m2, n2, used),
        keys_below(m, n),
    ensures
        kept_in(m, m2),
{
    assert forall|k: u32| #[trigger] m.contains_key(k) implies m2.contains_key(k) && m2[k] == m[k] by {
        assert(k < n);
    }
}

/// Every key of `m` is below `n`, and every key below `n` is a key of `m`.
pub open spec fn keys_exactly_below<V>(m: Map<u32, V>, n: u32) -> bool {
    forall|k: u32| #[trigger] m.contains_key(k) <==> k < n
}

proof fn lemma_grows_exactly<V>(m: Map<u32, V>, n: u32, m2: Map<u32, V>, n2: u32, used: Option<u32>)
    requires
        grows_at(m, n, m2, n2, used),
        keys_exactly_below(m, n),
        used is Some ==> used->0 < u32::MAX,
    ensures
        keys_exactly_below(m2, n2),
{
    if m2 != m || n2 != n {
        assert forall|k: u32| #[trigger] m2.contains_key(k) <==> k < n2 by {
            if k != n {
                assert(m2.contains_key(k) == m.contains_key(k));
            }
        }
    }
}

/// No ledger record is ever overwritten: as long as every ledger's keys are
/// below its nonce, each call keeps every record of every ledger.
pub proof fn lemma_no_record_overwritten(s: PalletView, c: Call)
    requires
        keys_below(s.in_service, s.in_service_nonce),
        keys_below(s.repairs, s.repair_nonce),
        keys_below(s.retires, s.retire_nonce),
        keys_below(s.drogues.rigged, s.drogues.rigged_nonce),
        keys_below(s.mains.rigged, s.mains.rigged_nonce),
        keys_below(s.reserves.rigged, s.reserves.rigged_nonce),
    ensures
        ledgers_extended(s, s.step(c).0),
{
    let s2 = s.step(c).0;
    let u = s.nonce_used(c);
    lemma_step_ledgers(s, c);
    lemma_grows_kept(s.in_service, s.in_service_nonce, s2.in_service, s2.in_service_nonce, u);
    lemma_grows_kept(s.repairs, s.repair_nonce, s2.repairs, s2.repair_nonce, u);
    lemma_grows_kept(s.retires, s.retire_nonce, s2.retires, s2.retire_nonce, u);
    lemma_grows_kept(s.drogues.rigged, s.drogues.rigged_nonce, s2.drogues.rigged, s2.drogues.rigged_nonce, u);
    lemma_grows_kept(s.mains.rigged, s.mains.rigged_nonce, s2.mains.rigged, s2.mains.rigged_nonce, u);
    lemma_grows_kept(s.reserves.rigged, s.reserves.rigged_nonce, s2.reserves.rigged, s2.reserves.rigged_nonce, u);
}

/// Each ledger's keys are exactly the keys below its nonce.
pub open spec fn ledgers_dense(s: PalletView) -> bool {
    &&& keys_exactly_below(s.in_service, s.in_service_nonce)
    &&& keys_exactly_below(s.repairs, s.repair_nonce)
    &&& keys_exactly_below(s.retires, s.retire_nonce)
    &&& keys_exactly_below(s.drogues.rigged, s.drogues.rigged_nonce)
    &&& keys_exactly_below(s.mains.rigged, s.mains.rigged_nonce)
    &&& keys_exactly_below(s.reserves.rigged, s.reserves.rigged_nonce)
}

/// A ledger stays dense across any call whose nonce is below the largest
/// value.
pub proof fn lemma_ledgers_stay_dense(s: PalletView, c: Call)
    requires
        ledgers_dense(s),
        s.nonce_used(c) is Some ==> s.nonce_used(c)->0 < u32::MAX,
    ensures
        ledgers_dense(s.step(c).0),
{
    let s2 = s.step(c).0;
    let u = s.nonce_used(c);
    lemma_step_ledgers(s, c);
    lemma_grows_exactly(s.in_service, s.in_service_nonce, s2.in_service, s2.in_service_nonce, u);
    lemma_grows_exactly(s.repairs, s.repair_nonce, s2.repairs, s2.repair_nonce, u);
    lemma_grows_exactly(s.retires, s.retire_nonce, s2.retires, s2.retire_nonce, u);
    lemma_grows_exactly(s.drogues.rigged, s.drogues.rigged_nonce, s2.drogues.rigged, s2.drogues.rigged_nonce, u);
    lemma_grows_exactly(s.mains.rigged, s.mains.rigged_nonce, s2.mains.rigged, s2.mains.rigged_nonce, u);
    lemma_grows_exactly(s.reserves.rigged, s.reserves.rigged_nonce, s2.reserves.rigged, s2.reserves.rigged_nonce, u);
}

/// The keys of `q` strictly increase.
pub open spec fn increasing(q: Seq<u32>) -> bool {
    forall|i: int, j: int| 0 <= i < j < q.len() ==> #[trigger] q[i] < #[trigger] q[j]
}

/// Every key list of loft `l` strictly increases.
pub open spec fn loft_increasing(l: LoftView) -> bool {
    &&& increasing(l.in_service)
    &&& increasing(l.drogues_rigged)
    &&& increasing(l.mains_rigged)
    &&& increasing(l.reserves_rigged)
    &&& increasing(l.repairs)
    &&& increasing(l.retires)
}

/// Every key list of every parachute in `st` strictly increases.
pub open spec fn store_increasing(st: StoreView) -> bool {
    forall|id: Seq<u8>| #[trigger] st.parachutes.contains_key(id)
        ==> increasing(st.parachutes[id].rigs) && increasing(st.parachutes[id].repairs)
}

/// Every key list kept by a loft or a parachute strictly increases.
pub open spec fn key_lists_increasing(s: PalletView) -> bool {
    &&& store_increasing(s.drogues)
    &&& store_increasing(s.mains)
    &&& store_increasing(s.reserves)
    &&& forall|who: u64| #[trigger] s.riggers.contains_key(who) ==> loft_increasing(s.riggers[who])
}

proof fn lemma_push_increasing(q: Seq<u32>, n: u32)
    requires
        increasing(q),
        forall|i: int| 0 <= i < q.len() ==> #[trigger] q[i] < n,
    ensures
        increasing(q.push(n)),
{
    assert forall|i: int, j: int| 0 <= i < j < q.push(n).len() implies #[trigger] q.push(n)[i] < #[trigger] q.push(n)[j] by {
        assert(q.push(n)[i] == q[i]);
        if j < q.len() {
            assert(q.push(n)[j] == q[j]);
        }
    }
}

proof fn lemma_store_of(s: PalletView, t: ParachuteType)
    ensures
        key_lists_increasing(s) ==> store_increasing(s.store(t)),
        ledgers_consistent(s) ==> store_consistent(s, t),
{
    match t {
        ParachuteType::Drogue => {},
        ParachuteType::Main => {},
        ParachuteType::Reserve => {},
    }
}

/// The stores other than `t` are those of `s`; lofts other than `who`
/// are those of `s`.
proof fn lemma_increasing_frame(s: PalletView, s2: PalletView, t: ParachuteType, who: u64)
    requires
        key_lists_increasing(s),
        forall|u: ParachuteType| u != t ==> #[trigger] s2.store(u) == s.store(u),
        store_increasing(s2.store(t)),
        s2.riggers.dom() == s.riggers.dom().insert(who),
        forall|w: u64| w != who && #[trigger] s.riggers.contains_key(w) ==> s2.riggers[w] == s.riggers[w],
        loft_increasing(s2.riggers[who]),
    ensures
        key_lists_increasing(s2),
{
    assert(store_increasing(s2.drogues)) by {
        assert(s2.store(ParachuteType::Drogue) == s2.drogues);
        lemma_store_of(s, ParachuteType::Drogue);
    }
    assert(store_increasing(s2.mains)) by {
        assert(s2.store(ParachuteType::Main) == s2.mains);
        lemma_store_of(s, ParachuteType::Main);
    }
    assert(store_increasing(s2.reserves)) by {
        assert(s2.store(ParachuteType::Reserve) == s2.reserves);
        lemma_store_of(s, ParachuteType::Reserve);
    }
    assert forall|w: u64| #[trigger] s2.riggers.contains_key(w) implies loft_increasing(s2.riggers[w]) by {
        if w != who {
            assert(s.riggers.contains_key(w));
        }
    }
}

proof fn lemma_key_below_nonce(m: Map<u32, RiggingView>, n: u32, k: u32)
    requires
        keys_below(m, n),
        m.contains_key(k),
    ensures
        k < n,
{
}

/// Key lists keep strictly increasing across every call that runs to an
/// outcome on consistent ledgers: a call appends the nonce it records
/// under, which is above every key already kept.
pub proof fn lemma_key_lists_stay_increasing(s: PalletView, c: Call)
    requires
        ledgers_consistent(s),
        key_lists_increasing(s),
        s.call_defined(c),
    ensures
        key_lists_increasing(s.step(c).0),
{
    let s2 = s.step(c).0;
    if s.step(c).1 is Ok {
        match c {
            Call::CreateLoftId { who } => {
                lemma_increasing_frame(s, s2, ParachuteType::Drogue, who);
            },
            Call::SetRigger { who, rigger } => {
                assert(s.riggers.contains_key(who));
                lemma_increasing_frame(s, s2, ParachuteType::Drogue, who);
            },
            Call::InService { rigger, t, owner, model, id, date } => {
                let n = s.in_service_nonce;
                let st = s.store(t);
                let st2 = StoreView { parachutes: st.parachutes.insert(id, ParachuteView::fresh(owner, model, n)), ..st };
                lemma_with_store(s, t, st2, ParachuteType::Drogue);
                lemma_with_store(s, t, st2, ParachuteType::Main);
                lemma_with_store(s, t, st2, ParachuteType::Reserve);
                lemma_store_of(s, t);
                assert forall|u: ParachuteType| u != t implies #[trigger] s2.store(u) == s.store(u) by {
                    lemma_with_store(s, t, st2, u);
                }
                assert(store_increasing(s2.store(t))) by {
                    assert forall|pid: Seq<u8>| #[trigger] s2.store(t).parachutes.contains_key(pid) implies
                        increasing(s2.store(t).parachutes[pid].rigs) && increasing(s2.store(t).parachutes[pid].repairs) by {
                        if pid != id {
                            assert(st.parachutes.contains_key(pid));
                        }
                    }
                }
                let l = s.riggers[rigger];
                assert(loft_consistent(s, rigger));
                assert(loft_increasing(s.riggers[rigger]));
                assert forall|i: int| 0 <= i < l.in_service.len() implies #[trigger] l.in_service[i] < n by {
                    assert(s.in_service.contains_key(l.in_service[i]));
                }
                lemma_push_increasing(l.in_service, n);
                lemma_increasing_frame(s, s2, t, rigger);
            },
            Call::Rig { rigger, id, t, drogue, location, date } => {
                let d = match t { ParachuteType::Main => Some(drogue->0), _ => None };
                let st = s.store(t);
                let n = st.rigged_nonce;
                let p = st.parachutes[id];
                let st2 = StoreView {
                    parachutes: st.parachutes.insert(id, ParachuteView { rigs: p.rigs.push(n), ..p }),
                    rigged: st.rigged.insert(n, RiggingView { who: rigger, parachute: id, drogue: d, location, date }),
                    rigged_nonce: bump(n),
                };
                assert(s2 == s.record_rig(rigger, t, id, d, location, date));
                lemma_store_of(s, t);
                assert forall|u: ParachuteType| u != t implies #[trigger] s2.store(u) == s.store(u) by {
                    lemma_with_store(s, t, st2, u);
                }
                lemma_with_store(s, t, st2, t);
                assert(st.parachutes.contains_key(id));
                assert(parachute_consistent(s, t, id));
                assert forall|i: int| 0 <= i < p.rigs.len() implies #[trigger] p.rigs[i] < n by {
                    lemma_key_below_nonce(st.rigged, n, p.rigs[i]);
                }
                lemma_push_increasing(p.rigs, n);
                assert(store_increasing(s2.store(t))) by {
                    assert forall|pid: Seq<u8>| #[trigger] s2.store(t).parachutes.contains_key(pid) implies
                        increasing(s2.store(t).parachutes[pid].rigs) && increasing(s2.store(t).parachutes[pid].repairs) by {
                        if pid != id {
                            assert(st.parachutes.contains_key(pid));
                        }
                    }
                }
                let l = s.riggers[rigger];
                assert(loft_consistent(s, rigger));
                assert(loft_increasing(l));
                assert(s2.riggers[rigger] == l.push_rigged(t, n));
                match t {
                    ParachuteType::Drogue => {
                        assert forall|i: int| 0 <= i < l.drogues_rigged.len() implies #[trigger] l.drogues_rigged[i] < n by {
                            lemma_key_below_nonce(st.rigged, n, l.drogues_rigged[i]);
                        }
                        lemma_push_increasing(l.drogues_rigged, n);
                    },
                    ParachuteType::Main => {
                        assert forall|i: int| 0 <= i < l.mains_rigged.len() implies #[trigger] l.mains_rigged[i] < n by {
                            lemma_key_below_nonce(st.rigged, n, l.mains_rigged[i]);
                        }
                        lemma_push_increasing(l.mains_rigged, n);
                    },
                    ParachuteType::Reserve => {
                        assert forall|i: int| 0 <= i < l.reserves_rigged.len() implies #[trigger] l.reserves_rigged[i] < n by {
                            lemma_key_below_nonce(st.rigged, n, l.reserves_rigged[i]);
                        }
                        lemma_push_increasing(l.reserves_rigged, n);
                    },
                }
                lemma_increasing_frame(s, s2, t, rigger);
            },
            Call::Repair { rigger, id, t, date, repair } => {
                let n = s.repair_nonce;
                let st = s.store(t);
                let p = st.parachutes[id];
                let st2 = StoreView { parachutes: st.parachutes.insert(id, ParachuteView { repairs: p.repairs.push(n), ..p }), ..st };
                lemma_store_of(s, t);
                assert forall|u: ParachuteType| u != t implies #[trigger] s2.store(u) == s.store(u) by {
                    lemma_with_store(s, t, st2, u);
                }
                lemma_with_store(s, t, st2, t);
                assert(st.parachutes.contains_key(id));
                assert(parachute_consistent(s, t, id));
                assert forall|i: int| 0 <= i < p.repairs.len() implies #[trigger] p.repairs[i] < n by {
                    assert(s.repairs.contains_key(p.repairs[i]));
                }
                lemma_push_increasing(p.repairs, n);
                assert(store_increasing(s2.store(t))) by {
                    assert forall|pid: Seq<u8>| #[trigger] s2.store(t).parachutes.contains_key(pid) implies
                        increasing(s2.store(t).parachutes[pid].rigs) && increasing(s2.store(t).parachutes[pid].repairs) by {
                        if pid != id {
                            assert(st.parachutes.contains_key(pid));
                        }
                    }
                }
                let l = s.riggers[rigger];
                assert(loft_consistent(s, rigger));
                assert(loft_increasing(l));
                assert forall|i: int| 0 <= i < l.repairs.len() implies #[trigger] l.repairs[i] < n by {
                    assert(s.repairs.contains_key(l.repairs[i]));
                }
                lemma_push_increasing(l.repairs, n);
                lemma_increasing_frame(s, s2, t, rigger);
            },
            Call::Retire { rigger, id, t, date } => {
                let n = s.retire_nonce;
                let st = s.store(t);
                let p = st.parachutes[id];
                let st2 = StoreView { parachutes: st.parachutes.insert(id, ParachuteView { active: false, retired: Some(n), ..p }), ..st };
                lemma_store_of(s, t);
                assert forall|u: ParachuteType| u != t implies #[trigger] s2.store(u) == s.store(u) by {
                    lemma_with_store(s, t, st2, u);
                }
                lemma_with_store(s, t, st2, t);
                assert(st.parachutes.contains_key(id));
                assert(store_increasing(s2.store(t))) by {
                    assert forall|pid: Seq<u8>| #[trigger] s2.store(t).parachutes.contains_key(pid) implies
                        increasing(s2.store(t).parachutes[pid].rigs) && increasing(s2.store(t).parachutes[pid].repairs) by {
                        assert(st.parachutes.contains_key(pid));
                    }
                }
                let l = s.riggers[rigger];
                assert(loft_consistent(s, rigger));
                assert(loft_increasing(l));
                assert forall|i: int| 0 <= i < l.retires.len() implies #[trigger] l.retires[i] < n by {
                    assert(s.retires.contains_key(l.retires[i]));
                }
                lemma_push_increasing(l.retires, n);
                lemma_increasing_frame(s, s2, t, rigger);
            },
        }
    }
}

/// The ledgers are append-only, starting from empty storage: each ledger's
/// keys are exactly those below its nonce, every key list strictly
/// increases, and no record is ever overwritten, across every call that
/// runs to an outcome, as long as the nonce the call records under is below
/// the largest value.
pub proof fn lemma_ledgers_append_only(s: PalletView, c: Call)
    requires
        ledgers_consistent(s),
        ledgers_dense(s),
        key_lists_increasing(s),
        s.call_defined(c),
        s.nonce_used(c) is Some ==> s.nonce_used(c)->0 < u32::MAX,
    ensures
        ledgers_extended(s, s.step(c).0),
        ledgers_dense(s.step(c).0),
        key_lists_increasing(s.step(c).0),
        ledgers_consistent(s.step(c).0),
{
    lemma_store_of(s, ParachuteType::Drogue);
    lemma_store_of(s, ParachuteType::Main);
    lemma_store_of(s, ParachuteType::Reserve);
    lemma_no_record_overwritten(s, c);
    lemma_ledgers_stay_dense(s, c);
    lemma_key_lists_stay_increasing(s, c);
    lemma_ledgers_stay_consistent(s, c);
}

/// Empty storage is dense and its key lists increase.
pub proof fn lemma_initial_append_only(max_rigs: u32)
    ensures
        ledgers_dense(PalletView::initial(max_rigs)),
        key_lists_increasing(PalletView::initial(max_rigs)),
{
}

} // verus!
