//! The query engine: the set of entities holding every component kind in a
//! requested list.
//!
//! Each arity is the same computation: look the stores up, then filter the
//! first store's key sequence by membership in every store. A query whose
//! kind list names a store that was never created matches nothing; that is
//! not an error.

use vstd::prelude::*;

use crate::components::ComponentKind;
use crate::entity_builder::Entity;
use crate::world::World;

verus! {

impl World {
    /// Whether `e` holds a component of every kind in `kinds`.
    pub open spec fn all_have(self, kinds: Seq<ComponentKind>, e: Entity) -> bool {
        forall|j: int| 0 <= j < kinds.len() ==> self.has_component(#[trigger] kinds[j], e)
    }

    /// Whether every kind in `kinds` has a store.
    pub open spec fn all_storages_exist(self, kinds: Seq<ComponentKind>) -> bool {
        forall|j: int| 0 <= j < kinds.len() ==> self.has_storage(#[trigger] kinds[j])
    }

    /// `keys` restricted, in order, to the entities holding every kind in
    /// `kinds`.
    pub open spec fn query_filter(self, kinds: Seq<ComponentKind>, keys: Seq<Entity>) -> Seq<
        Entity,
    >
        decreases keys.len(),
    {
        if keys.len() == 0 {
            Seq::<Entity>::empty()
        } else {
            let rest = self.query_filter(kinds, keys.drop_last());
            if self.all_have(kinds, keys.last()) {
                rest.push(keys.last())
            } else {
                rest
            }
        }
    }

    /// The entities a query for `kinds` matches: the first store's keys, in
    /// first-insert order, filtered by membership in every store; empty when
    /// `kinds` is empty or some store is missing.
    pub open spec fn query_spec(self, kinds: Seq<ComponentKind>) -> Seq<Entity> {
        if kinds.len() > 0 && self.all_storages_exist(kinds) {
            self.query_filter(kinds, self.storage_keys(kinds[0]))
        } else {
            Seq::<Entity>::empty()
        }
    }

    /// Extending the key prefix by one key extends the filtered sequence by
    /// that key exactly when it qualifies.
    proof fn lemma_query_filter_step(self, kinds: Seq<ComponentKind>, keys: Seq<Entity>, i: int)
        requires
            0 <= i < keys.len(),
        ensures
            self.query_filter(kinds, keys.take(i + 1)) == (if self.all_have(kinds, keys[i]) {
                self.query_filter(kinds, keys.take(i)).push(keys[i])
            } else {
                self.query_filter(kinds, keys.take(i))
            }),
    {
        assert(keys.take(i + 1).drop_last() =~= keys.take(i));
        assert(keys.take(i + 1).last() == keys[i]);
    }

    /// The filtered sequence holds exactly the qualifying keys.
    pub proof fn lemma_query_filter_membership(
        self,
        kinds: Seq<ComponentKind>,
        keys: Seq<Entity>,
        e: Entity,
    )
        ensures
            self.query_filter(kinds, keys).contains(e) <==> (keys.contains(e) && self.all_have(
                kinds,
                e,
            )),
        decreases keys.len(),
    {
        if keys.len() > 0 {
            self.lemma_query_filter_membership(kinds, keys.drop_last(), e);
            let out = self.query_filter(kinds, keys);
            let rest = self.query_filter(kinds, keys.drop_last());
            if keys.contains(e) && self.all_have(kinds, e) {
                if e == keys.last() {
                    assert(out[out.len() - 1] == e);
                } else {
                    let i = choose|i: int| 0 <= i < keys.len() && keys[i] == e;
                    assert(keys.drop_last()[i] == e);
                    assert(rest.contains(e));
                    let j = choose|j: int| 0 <= j < rest.len() && rest[j] == e;
                    assert(out[j] == e);
                }
            }
            if out.contains(e) {
                let j = choose|j: int| 0 <= j < out.len() && out[j] == e;
                if self.all_have(kinds, keys.last()) {
                    if j == out.len() - 1 {
                        assert(keys[keys.len() - 1] == e);
                    } else {
                        assert(rest[j] == e);
                    }
                } else {
                    assert(rest[j] == e);
                }
                if keys.drop_last().contains(e) {
                    let i = choose|i: int|
                        0 <= i < keys.drop_last().len() && keys.drop_last()[i] == e;
                    assert(keys[i] == e);
                }
            }
        }
    }

    /// A query matches `e` iff `e` holds a component of every requested
    /// kind: strict intersection, no partial matches.
    pub proof fn lemma_query_characterization(self, kinds: Seq<ComponentKind>, e: Entity)
        requires
            self.wf(),
            kinds.len() >= 1,
        ensures
            self.query_spec(kinds).contains(e) <==> self.all_have(kinds, e),
    {
        if self.all_storages_exist(kinds) {
            let keys = self.storage_keys(kinds[0]);
            self.lemma_query_filter_membership(kinds, keys, e);
            self.storage_for(kinds[0]).lemma_entity_seq_contains(e);
            assert(self.all_have(kinds, e) ==> self.has_component(kinds[0], e));
        } else {
            let j = choose|j: int| 0 <= j < kinds.len() && !self.has_storage(#[trigger] kinds[j]);
            assert(!self.has_component(kinds[j], e));
        }
    }

    /// Whether `e` holds a component of kind `k`.
    pub fn contains_component(&self, k: ComponentKind, e: Entity) -> (r: bool)
        requires
            self.wf(),
        ensures
            r == self.has_component(k, e),
    {
        match self.component(e, k) {
            Ok(_) => true,
            Err(_) => false,
        }
    }

    /// Whether `e` holds a component of every kind in `kinds`.
    fn contains_all(&self, kinds: &[ComponentKind], e: Entity) -> (r: bool)
        requires
            self.wf(),
        ensures
            r == self.all_have(kinds@, e),
    {
        let n = kinds.len();
        let mut j: usize = 0;
        while j < n
            invariant
                j <= n,
                n == kinds@.len(),
                self.wf(),
                forall|x: int| 0 <= x < j ==> self.has_component(#[trigger] kinds@[x], e),
            decreases n - j,
        {
            if !self.contains_component(kinds[j], e) {
                return false;
            }
            j = j + 1;
        }
        true
    }

    /// The entities holding every kind in `kinds`, ordered by the first
    /// store's first-insert order. Matches nothing when `kinds` is empty or
    /// names a kind whose store was never created.
    pub fn query(&self, kinds: &[ComponentKind]) -> (r: Vec<Entity>)
        requires
            self.wf(),
        ensures
            r@ == self.query_spec(kinds@),
    {
        let empty: Vec<Entity> = Vec::new();
        if kinds.len() == 0 {
            return empty;
        }
        let kn = kinds.len();
        let mut j: usize = 0;
        while j < kn
            invariant
                j <= kn,
                kn == kinds@.len(),
                self.wf(),
                empty@ == Seq::<Entity>::empty(),
                forall|x: int| 0 <= x < j ==> self.has_storage(#[trigger] kinds@[x]),
            decreases kn - j,
        {
            match self.query_component(kinds[j]) {
                Ok(_) => (),
                Err(_) => {
                    proof {
                        assert(!self.has_storage(kinds@[j as int]));
                        assert(!self.all_storages_exist(kinds@));
                    }
                    return empty;
                },
            }
            j = j + 1;
        }
        let st = match self.query_component(kinds[0]) {
            Ok(st) => st,
            Err(_) => {
                return empty;
            },
        };
        let ghost keys = st.entity_seq();
        let n = st.entries.len();
        let mut result: Vec<Entity> = Vec::new();
        let mut i: usize = 0;
        while i < n
            invariant
                i <= n,
                n == st.entries@.len(),
                self.wf(),
                keys == st.entity_seq(),
                *st == self.storage_for(kinds@[0]),
                result@ == self.query_filter(kinds@, keys.take(i as int)),
            decreases n - i,
        {
            let e = st.entries[i].0;
            proof {
                assert(keys[i as int] == e);
                self.lemma_query_filter_step(kinds@, keys, i as int);
            }
            if self.contains_all(kinds, e) {
                result.push(e);
            }
            i = i + 1;
        }
        proof {
            assert(keys.take(n as int) =~= self.storage_keys(kinds@[0]));
        }
        result
    }
}

} // verus!
