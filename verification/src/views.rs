use vstd::prelude::*;

verus! {

/// The views of a map's values.
pub open spec fn view_map<K, V: View>(m: Map<K, V>) -> Map<K, V::V> {
    m.map_values(|v: V| v@)
}

/// The views of a sequence's items.
pub open spec fn view_seq<T: View>(s: Seq<T>) -> Seq<T::V> {
    s.map_values(|t: T| t@)
}

pub proof fn lemma_view_map_insert<K, V: View>(m: Map<K, V>, k: K, v: V)
    ensures
        view_map(m.insert(k, v)) == view_map(m).insert(k, v@),
{
    assert(view_map(m.insert(k, v)) =~= view_map(m).insert(k, v@));
}

pub proof fn lemma_view_seq_push<T: View>(s: Seq<T>, t: T)
    ensures
        view_seq(s.push(t)) == view_seq(s).push(t@),
{
    assert(view_seq(s.push(t)) =~= view_seq(s).push(t@));
}

} // verus!
