//! Entities are owned data with an `EntityId`; no entity refers to another
//! by reference. Each kind is stored in a `Vec` whose ids are unique and is
//! seen, in contracts, as a map from id to entity.
use vstd::prelude::*;

verus! {

pub type EntityId = u32;

/// A placed defense. Its world position follows from its cell.
#[derive(Debug, Clone)]
pub struct Tower {
    pub id: EntityId,
    pub type_id: String,
    pub visual_key: String,
    pub cell_x: i32,
    pub cell_z: i32,
}

pub struct TowerView {
    pub id: EntityId,
    pub type_id: Seq<char>,
    pub visual_key: Seq<char>,
    pub cell_x: i32,
    pub cell_z: i32,
}

impl View for Tower {
    type V = TowerView;

    open spec fn view(&self) -> TowerView {
        TowerView {
            id: self.id,
            type_id: self.type_id@,
            visual_key: self.visual_key@,
            cell_x: self.cell_x,
            cell_z: self.cell_z,
        }
    }
}

/// An enemy's rules-side record: who it is and its hit points, in
/// thousandths of a hit point. Its position is kept by the movement code.
#[derive(Debug, Clone)]
pub struct Enemy {
    pub id: EntityId,
    pub type_id: String,
    pub visual_key: String,
    pub hp_milli: u32,
}

pub struct EnemyView {
    pub id: EntityId,
    pub type_id: Seq<char>,
    pub visual_key: Seq<char>,
    pub hp_milli: u32,
}

impl View for Enemy {
    type V = EnemyView;

    open spec fn view(&self) -> EnemyView {
        EnemyView {
            id: self.id,
            type_id: self.type_id@,
            visual_key: self.visual_key@,
            hp_milli: self.hp_milli,
        }
    }
}

/// A value that carries its own entity id.
pub trait Keyed: View + Sized {
    spec fn key(&self) -> EntityId;

    fn id(&self) -> (r: EntityId)
        ensures
            r == self.key(),
    ;
}

impl Keyed for Tower {
    open spec fn key(&self) -> EntityId {
        self.id
    }

    fn id(&self) -> (r: EntityId) {
        self.id
    }
}

impl Keyed for Enemy {
    open spec fn key(&self) -> EntityId {
        self.id
    }

    fn id(&self) -> (r: EntityId) {
        self.id
    }
}

/// No two entries share an id.
pub open spec fn keys_unique<E: Keyed>(s: Seq<E>) -> bool {
    forall|i: int, j: int|
        0 <= i < s.len() && 0 <= j < s.len() && i != j ==> (#[trigger] s[i].key()) != (#[trigger] s[j].key())
}

pub open spec fn has_key<E: Keyed>(s: Seq<E>, k: EntityId) -> bool {
    exists|i: int| 0 <= i < s.len() && (#[trigger] s[i].key()) == k
}

/// The entries of `s` as a map from id to entity.
pub open spec fn by_id<E: Keyed>(s: Seq<E>) -> Map<EntityId, E::V> {
    Map::new(
        |k: EntityId| has_key(s, k),
        |k: EntityId| s[choose|i: int| 0 <= i < s.len() && (#[trigger] s[i].key()) == k]@,
    )
}

/// With unique ids, the map entry of an id is the entry at any index that carries it.
pub proof fn lemma_by_id_at<E: Keyed>(s: Seq<E>, i: int)
    requires
        keys_unique(s),
        0 <= i < s.len(),
    ensures
        by_id(s).contains_key(s[i].key()),
        by_id(s)[s[i].key()] == s[i]@,
{
    let k = s[i].key();
    assert(has_key(s, k));
    let j = choose|j: int| 0 <= j < s.len() && (#[trigger] s[j].key()) == k;
    assert(j == i);
}

/// Appending an entry with a fresh id inserts it into the map.
pub proof fn lemma_by_id_push<E: Keyed>(s: Seq<E>, e: E)
    requires
        keys_unique(s),
        !has_key(s, e.key()),
    ensures
        keys_unique(s.push(e)),
        by_id(s.push(e)) =~= by_id(s).insert(e.key(), e@),
{
    let t = s.push(e);
    assert forall|i: int, j: int|
        0 <= i < t.len() && 0 <= j < t.len() && i != j implies (#[trigger] t[i].key()) != (#[trigger] t[j].key()) by {
        if i < s.len() && j < s.len() {
            assert(t[i] == s[i] && t[j] == s[j]);
        } else if i < s.len() {
            assert(t[i] == s[i]);
        } else {
            assert(t[j] == s[j]);
        }
    }
    assert forall|k: EntityId| #[trigger] has_key(t, k) == (has_key(s, k) || k == e.key()) by {
        if has_key(s, k) {
            let i = choose|i: int| 0 <= i < s.len() && (#[trigger] s[i].key()) == k;
            assert(t[i] == s[i]);
        }
        if k == e.key() {
            assert(t[s.len() as int] == e);
        }
        if has_key(t, k) {
            let i = choose|i: int| 0 <= i < t.len() && (#[trigger] t[i].key()) == k;
            if i < s.len() {
                assert(t[i] == s[i]);
            }
        }
    }
    assert forall|k: EntityId| #[trigger] by_id(t).contains_key(k) implies by_id(t)[k] == by_id(s).insert(e.key(), e@)[k] by {
        let i = choose|i: int| 0 <= i < t.len() && (#[trigger] t[i].key()) == k;
        lemma_by_id_at(t, i);
        if i < s.len() {
            assert(t[i] == s[i]);
            lemma_by_id_at(s, i);
        } else {
            assert(t[i] == e);
        }
    }
}

/// Replacing the entry at `i` by one with the same id updates the map.
pub proof fn lemma_by_id_update<E: Keyed>(s: Seq<E>, i: int, e: E)
    requires
        keys_unique(s),
        0 <= i < s.len(),
        s[i].key() == e.key(),
    ensures
        keys_unique(s.update(i, e)),
        by_id(s.update(i, e)) =~= by_id(s).insert(e.key(), e@),
{
    let t = s.update(i, e);
    assert forall|a: int, b: int|
        0 <= a < t.len() && 0 <= b < t.len() && a != b implies (#[trigger] t[a].key()) != (#[trigger] t[b].key()) by {
        assert(t[a].key() == s[a].key());
        assert(t[b].key() == s[b].key());
    }
    assert forall|k: EntityId| #[trigger] has_key(t, k) == has_key(s, k) by {
        if has_key(s, k) {
            let j = choose|j: int| 0 <= j < s.len() && (#[trigger] s[j].key()) == k;
            assert(t[j].key() == s[j].key());
        }
        if has_key(t, k) {
            let j = choose|j: int| 0 <= j < t.len() && (#[trigger] t[j].key()) == k;
            assert(t[j].key() == s[j].key());
        }
    }
    lemma_by_id_at(s, i);
    assert forall|k: EntityId| #[trigger] by_id(t).contains_key(k) implies by_id(t)[k] == by_id(s).insert(e.key(), e@)[k] by {
        let j = choose|j: int| 0 <= j < t.len() && (#[trigger] t[j].key()) == k;
        lemma_by_id_at(t, j);
        if j != i {
            assert(t[j] == s[j]);
            lemma_by_id_at(s, j);
        }
    }
}

/// Removing the entry at `i` removes its id from the map.
pub proof fn lemma_by_id_remove<E: Keyed>(s: Seq<E>, i: int)
    requires
        keys_unique(s),
        0 <= i < s.len(),
    ensures
        keys_unique(s.remove(i)),
        by_id(s.remove(i)) =~= by_id(s).remove(s[i].key()),
{
    let t = s.remove(i);
    let k0 = s[i].key();
    assert forall|a: int, b: int|
        0 <= a < t.len() && 0 <= b < t.len() && a != b implies (#[trigger] t[a].key()) != (#[trigger] t[b].key()) by {
        let sa = if a < i { a } else { a + 1 };
        let sb = if b < i { b } else { b + 1 };
        assert(t[a] == s[sa]);
        assert(t[b] == s[sb]);
    }
    assert forall|k: EntityId| #[trigger] has_key(t, k) == (has_key(s, k) && k != k0) by {
        if has_key(s, k) && k != k0 {
            let j = choose|j: int| 0 <= j < s.len() && (#[trigger] s[j].key()) == k;
            if j < i {
                assert(t[j] == s[j]);
            } else {
                assert(j != i);
                assert(t[j - 1] == s[j]);
            }
        }
        if has_key(t, k) {
            let j = choose|j: int| 0 <= j < t.len() && (#[trigger] t[j].key()) == k;
            let sj = if j < i { j } else { j + 1 };
            assert(t[j] == s[sj]);
        }
    }
    assert forall|k: EntityId| #[trigger] by_id(t).contains_key(k) implies by_id(t)[k] == by_id(s).remove(k0)[k] by {
        let j = choose|j: int| 0 <= j < t.len() && (#[trigger] t[j].key()) == k;
        lemma_by_id_at(t, j);
        let sj = if j < i { j } else { j + 1 };
        assert(t[j] == s[sj]);
        lemma_by_id_at(s, sj);
    }
}

/// The index of the entry with id `id`, if there is one.
pub fn find_index<E: Keyed>(v: &Vec<E>, id: EntityId) -> (r: Option<usize>)
    ensures
        match r {
            Some(i) => i < v@.len() && v@[i as int].key() == id,
            None => !has_key(v@, id),
        },
{
    let mut i: usize = 0;
    while i < v.len()
        invariant
            0 <= i <= v@.len(),
            forall|j: int| 0 <= j < i ==> (#[trigger] v@[j].key()) != id,
        decreases v@.len() - i,
    {
        if v[i].id() == id {
            return Some(i);
        }
        i = i + 1;
    }
    None
}

/// Inserts `e` under its id, replacing an entry with the same id.
pub fn upsert<E: Keyed>(v: &mut Vec<E>, e: E)
    requires
        keys_unique(old(v)@),
    ensures
        keys_unique(final(v)@),
        by_id(final(v)@) == by_id(old(v)@).insert(e.key(), e@),
{
    let ghost k = e.key();
    let ghost ev = e@;
    match find_index(v, e.id()) {
        Some(i) => {
            proof {
                lemma_by_id_update(v@, i as int, e);
            }
            v.set(i, e);
        },
        None => {
            proof {
                lemma_by_id_push(v@, e);
            }
            v.push(e);
        },
    }
}

/// Removes the entry with id `id` and returns it, if there is one.
pub fn remove_by_id<E: Keyed>(v: &mut Vec<E>, id: EntityId) -> (r: Option<E>)
    requires
        keys_unique(old(v)@),
    ensures
        keys_unique(final(v)@),
        by_id(final(v)@) == by_id(old(v)@).remove(id),
        match r {
            Some(e) => e.key() == id && by_id(old(v)@).contains_key(id) && by_id(old(v)@)[id] == e@,
            None => !by_id(old(v)@).contains_key(id),
        },
{
    match find_index(v, id) {
        Some(i) => {
            proof {
                lemma_by_id_remove(v@, i as int);
                lemma_by_id_at(v@, i as int);
            }
            let e = v.remove(i);
            Some(e)
        },
        None => {
            assert(by_id(v@).remove(id) =~= by_id(v@));
            None
        },
    }
}

} // verus!
