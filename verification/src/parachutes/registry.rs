use vstd::prelude::*;
use vstd::pervasive::VecAdditionalExecFns;

use crate::bytes::bytes_eq;
use super::types::{ParachuteDetails, ParachuteModel, ParachuteView};

verus! {

/// The parachutes of one kind, keyed by their identifier.
pub struct ParachuteRegistry {
    ids: Vec<Vec<u8>>,
    details: Vec<ParachuteDetails>,
}

impl ParachuteRegistry {
    /// Identifiers and details line up, and no identifier occurs twice.
    pub closed spec fn wf(&self) -> bool {
        &&& self.ids@.len() == self.details@.len()
        &&& forall|i: int, j: int|
            0 <= i < j < self.ids@.len() ==> #[trigger] self.ids@[i]@ != #[trigger] self.ids@[j]@
    }

    spec fn holds(&self, k: Seq<u8>) -> bool {
        exists|i: int| 0 <= i < self.ids@.len() && #[trigger] self.ids@[i]@ == k
    }

    spec fn slot(&self, k: Seq<u8>) -> int {
        choose|i: int| 0 <= i < self.ids@.len() && #[trigger] self.ids@[i]@ == k
    }

    proof fn lemma_slot(&self, i: int)
        requires
            self.wf(),
            0 <= i < self.ids@.len(),
        ensures
            self.holds(self.ids@[i]@),
            self.slot(self.ids@[i]@) == i,
    {
        let k = self.ids@[i]@;
        assert(self.ids@[i]@ == k);
        let j = self.slot(k);
        if j != i {
            if j < i {
                assert(self.ids@[j]@ != self.ids@[i]@);
            } else {
                assert(self.ids@[i]@ != self.ids@[j]@);
            }
        }
    }

    pub fn new() -> (r: Self)
        ensures
            r.wf(),
            r@ == Map::<Seq<u8>, ParachuteView>::empty(),
    {
        let r = ParachuteRegistry { ids: Vec::new(), details: Vec::new() };
        assert(r@ =~= Map::<Seq<u8>, ParachuteView>::empty());
        r
    }

    fn find(&self, id: &Vec<u8>) -> (r: Option<usize>)
        requires
            self.wf(),
        ensures
            match r {
                Some(i) => i < self.ids@.len() && self.ids@[i as int]@ == id@,
                None => !self@.contains_key(id@),
            },
    {
        let mut i: usize = 0;
        while i < self.ids.len()
            invariant
                self.wf(),
                i <= self.ids@.len(),
                forall|j: int| 0 <= j < i ==> self.ids@[j]@ != id@,
            decreases self.ids@.len() - i,
        {
            if bytes_eq(&self.ids[i], id) {
                return Some(i);
            }
            i = i + 1;
        }
        None
    }

    /// Whether a parachute with this identifier is registered.
    pub fn contains(&self, id: &Vec<u8>) -> (r: bool)
        requires
            self.wf(),
        ensures
            r == self@.contains_key(id@),
    {
        match self.find(id) {
            Some(i) => {
                proof {
                    self.lemma_slot(i as int);
                }
                true
            },
            None => false,
        }
    }

    /// The details of the parachute with this identifier, if registered.
    pub fn get(&self, id: &Vec<u8>) -> (r: Option<&ParachuteDetails>)
        requires
            self.wf(),
        ensures
            match r {
                Some(d) => self@.contains_key(id@) && d@ == self@[id@],
                None => !self@.contains_key(id@),
            },
    {
        match self.find(id) {
            Some(i) => {
                proof {
                    self.lemma_slot(i as int);
                }
                Some(&self.details[i])
            },
            None => None,
        }
    }

    /// Registers a parachute under an identifier that is not registered yet.
    pub fn insert_new(&mut self, id: Vec<u8>, d: ParachuteDetails)
        requires
            old(self).wf(),
            !old(self)@.contains_key(id@),
        ensures
            final(self).wf(),
            final(self)@ == old(self)@.insert(id@, d@),
    {
        let ghost old_self = *self;
        let ghost k = id@;
        let ghost dv = d@;
        self.ids.push(id);
        self.details.push(d);
        let ghost n = old_self.ids@.len() as int;
        assert forall|i: int, j: int|
            0 <= i < j < self.ids@.len() implies #[trigger] self.ids@[i]@ != #[trigger] self.ids@[j]@ by {
            if j == n {
                assert(old_self.ids@[i]@ == self.ids@[i]@);
                if old_self.ids@[i]@ == k {
                    assert(old_self.holds(k));
                }
            } else {
                assert(old_self.ids@[i]@ == self.ids@[i]@);
                assert(old_self.ids@[j]@ == self.ids@[j]@);
            }
        }
        assert forall|key: Seq<u8>| #[trigger] self@.contains_key(key) == old_self@.insert(k, dv).contains_key(key) by {
            if self.holds(key) {
                let i = choose|i: int| 0 <= i < self.ids@.len() && #[trigger] self.ids@[i]@ == key;
                if i < n {
                    assert(old_self.ids@[i]@ == key);
                }
            }
            if old_self.holds(key) {
                let i = choose|i: int| 0 <= i < old_self.ids@.len() && #[trigger] old_self.ids@[i]@ == key;
                assert(self.ids@[i]@ == key);
            }
            if key == k {
                assert(self.ids@[n]@ == key);
            }
        }
        assert forall|key: Seq<u8>| #[trigger] self@.contains_key(key) implies self@[key] == old_self@.insert(k, dv)[key] by {
            let i = choose|i: int| 0 <= i < self.ids@.len() && #[trigger] self.ids@[i]@ == key;
            self.lemma_slot(i);
            if i < n {
                assert(old_self.ids@[i]@ == key);
                old_self.lemma_slot(i);
            }
        }
        assert(self@ =~= old_self@.insert(k, dv));
    }

    proof fn lemma_replace(old_self: &Self, new_self: &Self, i: int)
        requires
            old_self.wf(),
            0 <= i < old_self.ids@.len(),
            new_self.ids@ == old_self.ids@,
            new_self.details@ == old_self.details@.update(i, new_self.details@[i]),
        ensures
            new_self.wf(),
            new_self@ == old_self@.insert(old_self.ids@[i]@, new_self.details@[i]@),
    {
        let k = old_self.ids@[i]@;
        old_self.lemma_slot(i);
        new_self.lemma_slot(i);
        assert forall|key: Seq<u8>| #[trigger] new_self@.contains_key(key) == old_self@.insert(k, new_self.details@[i]@).contains_key(key) by {
            if new_self.holds(key) {
                let j = choose|j: int| 0 <= j < new_self.ids@.len() && #[trigger] new_self.ids@[j]@ == key;
                assert(old_self.ids@[j]@ == key);
            }
            if old_self.holds(key) {
                let j = choose|j: int| 0 <= j < old_self.ids@.len() && #[trigger] old_self.ids@[j]@ == key;
                assert(new_self.ids@[j]@ == key);
            }
        }
        assert forall|key: Seq<u8>| #[trigger] new_self@.contains_key(key) implies new_self@[key] == old_self@.insert(k, new_self.details@[i]@)[key] by {
            let j = choose|j: int| 0 <= j < new_self.ids@.len() && #[trigger] new_self.ids@[j]@ == key;
            new_self.lemma_slot(j);
            old_self.lemma_slot(j);
        }
        assert(new_self@ =~= old_self@.insert(k, new_self.details@[i]@));
    }

    /// Appends rigging key `n` to the parachute's rig list.
    pub fn push_rig(&mut self, id: &Vec<u8>, n: u32)
        requires
            old(self).wf(),
            old(self)@.contains_key(id@),
        ensures
            final(self).wf(),
            final(self)@ == old(self)@.insert(id@, ParachuteView { rigs: old(self)@[id@].rigs.push(n), ..old(self)@[id@] }),
    {
        let i = self.find(id).unwrap();
        let ghost old_self = *self;
        proof { old_self.lemma_slot(i as int); }
        let mut d = placeholder();
        self.details.set_and_swap(i, &mut d);
        d.rigs.push(n);
        self.details.set_and_swap(i, &mut d);
        proof {
            assert(self.details@ =~= old_self.details@.update(i as int, self.details@[i as int]));
            Self::lemma_replace(&old_self, self, i as int);
            assert(self.details@[i as int]@ =~= ParachuteView { rigs: old_self@[id@].rigs.push(n), ..old_self@[id@] });
        }
    }

    /// Appends repair key `n` to the parachute's repair list.
    pub fn push_repair(&mut self, id: &Vec<u8>, n: u32)
        requires
            old(self).wf(),
            old(self)@.contains_key(id@),
        ensures
            final(self).wf(),
            final(self)@ == old(self)@.insert(id@, ParachuteView { repairs: old(self)@[id@].repairs.push(n), ..old(self)@[id@] }),
    {
        let i = self.find(id).unwrap();
        let ghost old_self = *self;
        proof { old_self.lemma_slot(i as int); }
        let mut d = placeholder();
        self.details.set_and_swap(i, &mut d);
        d.repairs.push(n);
        self.details.set_and_swap(i, &mut d);
        proof {
            assert(self.details@ =~= old_self.details@.update(i as int, self.details@[i as int]));
            Self::lemma_replace(&old_self, self, i as int);
            assert(self.details@[i as int]@ =~= ParachuteView { repairs: old_self@[id@].repairs.push(n), ..old_self@[id@] });
        }
    }

    /// Marks the parachute retired under retire key `n`.
    pub fn mark_retired(&mut self, id: &Vec<u8>, n: u32)
        requires
            old(self).wf(),
            old(self)@.contains_key(id@),
        ensures
            final(self).wf(),
            final(self)@ == old(self)@.insert(id@, ParachuteView { active: false, retired: Some(n), ..old(self)@[id@] }),
    {
        let i = self.find(id).unwrap();
        let ghost old_self = *self;
        proof { old_self.lemma_slot(i as int); }
        let mut d = placeholder();
        self.details.set_and_swap(i, &mut d);
        d.retired = Some(n);
        d.active = false;
        self.details.set_and_swap(i, &mut d);
        proof {
            assert(self.details@ =~= old_self.details@.update(i as int, self.details@[i as int]));
            Self::lemma_replace(&old_self, self, i as int);
            assert(self.details@[i as int]@ =~= ParachuteView { active: false, retired: Some(n), ..old_self@[id@] });
        }
    }
}

/// The inactive, empty details that stand in a slot while its entry is
/// being changed.
fn placeholder() -> (d: ParachuteDetails)
    ensures
        d@ == (ParachuteView {
            active: false,
            owner: Seq::empty(),
            model: ParachuteModel::Drogue,
            in_service: 0,
            rigs: Seq::empty(),
            repairs: Seq::empty(),
            retired: None,
        }),
{
    let d = ParachuteDetails {
        active: false,
        owner: Vec::new(),
        model: ParachuteModel::Drogue,
        in_service: 0,
        rigs: Vec::new(),
        repairs: Vec::new(),
        retired: None,
    };
    assert(d@ =~= ParachuteView {
        active: false,
        owner: Seq::empty(),
        model: ParachuteModel::Drogue,
        in_service: 0,
        rigs: Seq::empty(),
        repairs: Seq::empty(),
        retired: None,
    });
    d
}

impl View for ParachuteRegistry {
    type V = Map<Seq<u8>, ParachuteView>;

    closed spec fn view(&self) -> Map<Seq<u8>, ParachuteView> {
        Map::new(|k: Seq<u8>| self.holds(k), |k: Seq<u8>| self.details@[self.slot(k)]@)
    }
}

} // verus!
