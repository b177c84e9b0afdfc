//! A generational-index allocator ("entity pool").
//!
//! The pool hands out small, copyable, unique identifiers (entities) backed by
//! a densely packed array of live slots, and recycles identifiers after
//! release without dangling references or accidental aliasing.  An entity is a
//! pair of a `key` (slot identity, reused across recycles) and a `generation`
//! (bumped each time the key is recycled), packed into one 64-bit value.

use vstd::prelude::*;

verus! {

/// The reserved "no entity" value: all bits set.  Never produced by
/// allocation, never valid as an argument to a pool query.
const INVALID_ID: u64 = 0xFFFF_FFFF_FFFF_FFFFu64;

/// Sentinel stored in the indirection table for a key whose current
/// generation is not live in the dense array.
const INVALID_INDEX: u32 = 0xFFFF_FFFFu32;

/// An opaque, copyable identifier handed out by an [`EntityPool`].
///
/// Conceptually a pair `(key, generation)` of two 32-bit values packed into a
/// single 64-bit integer, key in the high bits, generation in the low bits.
#[derive(Copy, Clone, PartialEq, Eq, Structural, Hash, Debug)]
pub struct Entity(u64);

impl Entity {
    /// The key (slot identity) half of the identifier.
    pub closed spec fn key_spec(self) -> u32 {
        (self.0 >> 32) as u32
    }

    /// The generation half of the identifier.
    pub closed spec fn gen_spec(self) -> u32 {
        (self.0 & 0xFFFF_FFFFu64) as u32
    }

    /// The identifier packing `key` in the high 32 bits and `gen` in the low
    /// 32 bits.
    pub closed spec fn pack_spec(key: u32, gen: u32) -> Entity {
        Entity(((key as u64) << 32u64) | (gen as u64))
    }

    /// The reserved "no entity" sentinel.
    pub closed spec fn sentinel_spec() -> Entity {
        Entity(INVALID_ID)
    }

    fn from_key_and_gen(key: u32, gen: u32) -> (e: Entity)
        ensures
            e == Entity::pack_spec(key, gen),
            e.key_spec() == key,
            e.gen_spec() == gen,
    {
        proof {
            Entity::lemma_pack_unpack(key, gen);
        }
        Entity(((key as u64) << 32u64) | (gen as u64))
    }

    /// Returns the key (slot identity) half of this identifier.
    pub fn key(&self) -> (k: u32)
        ensures
            k == self.key_spec(),
    {
        (self.0 >> 32u64) as u32
    }

    /// Returns the generation half of this identifier.
    pub fn gen(&self) -> (g: u32)
        ensures
            g == self.gen_spec(),
    {
        (self.0 & 0xFFFF_FFFFu64) as u32
    }

    /// Packing is lossless: the key and generation read back from a packed
    /// identifier are the ones packed in.
    pub proof fn lemma_pack_unpack(key: u32, gen: u32)
        ensures
            Entity::pack_spec(key, gen).key_spec() == key,
            Entity::pack_spec(key, gen).gen_spec() == gen,
    {
        let k = key as u64;
        let g = gen as u64;
        assert(((k << 32u64) | g) >> 32u64 == k) by (bit_vector)
            requires
                k < 0x1_0000_0000u64,
                g < 0x1_0000_0000u64,
        ;
        assert((((k << 32u64) | g) & 0xFFFF_FFFFu64) == g) by (bit_vector)
            requires
                g < 0x1_0000_0000u64,
        ;
    }

    /// Two identifiers are equal exactly when both their keys and their
    /// generations are equal: the packing is injective.
    pub proof fn lemma_identity(e1: Entity, e2: Entity)
        ensures
            (e1 == e2) <==> (e1.key_spec() == e2.key_spec() && e1.gen_spec() == e2.gen_spec()),
    {
        let a = e1.0;
        let b = e2.0;
        assert(((a >> 32u64) as u32 == (b >> 32u64) as u32 && (a & 0xFFFF_FFFFu64) as u32 == (b
            & 0xFFFF_FFFFu64) as u32) ==> a == b) by (bit_vector);
    }

    /// The sentinel carries the largest key and generation, so no identifier
    /// whose key is below `0xFFFF_FFFF` is the sentinel.
    pub proof fn lemma_sentinel_key()
        ensures
            Entity::sentinel_spec().key_spec() == 0xFFFF_FFFFu32,
            Entity::sentinel_spec().gen_spec() == 0xFFFF_FFFFu32,
    {
        assert(0xFFFF_FFFF_FFFF_FFFFu64 >> 32u64 == 0xFFFF_FFFFu64) by (bit_vector);
        assert(0xFFFF_FFFF_FFFF_FFFFu64 & 0xFFFF_FFFFu64 == 0xFFFF_FFFFu64) by (bit_vector);
    }
}

impl Default for Entity {
    /// Returns the sentinel "no entity" value.
    fn default() -> (e: Entity)
        ensures
            e == Entity::sentinel_spec(),
    {
        Entity(INVALID_ID)
    }
}

/// Relies on std's `Vec::shrink_to_fit`: it only drops excess capacity and
/// leaves the elements as they are.
#[verifier::external_body]
fn vec_shrink_to_fit<T>(v: &mut Vec<T>)
    ensures
        final(v)@ == old(v)@,
{
    v.shrink_to_fit()
}

/// Relies on std's `Vec::capacity`: the number of elements the vector can
/// hold without reallocating, documented to be at least its length.
#[verifier::external_body]
fn vec_capacity<T>(v: &Vec<T>) -> (n: usize)
    ensures
        n >= v@.len(),
{
    v.capacity()
}

/// The generation that a key carries after one more recycle: the successor
/// of `g`, wrapping to 0 past `0xFFFF_FFFF`.
pub open spec fn next_gen(g: u32) -> u32 {
    if g == 0xFFFF_FFFFu32 {
        0u32
    } else {
        (g + 1) as u32
    }
}

/// A pool of unique entity identifiers.
///
/// Three buffers back the pool: `entities` is the dense array of currently
/// live identifiers (gap-free, in append/swap order); `entities_free` is a
/// stack of released identifiers awaiting key reuse; `entity_index` maps each
/// issued key to its current position in the dense array, or to
/// `INVALID_INDEX` when that key is not live.  `next_entity_key` counts the
/// distinct keys issued so far.
#[derive(Debug, Clone)]
pub struct EntityPool {
    entities: Vec<Entity>,
    entities_free: Vec<Entity>,
    entity_index: Vec<u32>,
    next_entity_key: u32,
}

impl EntityPool {
    /// The dense array of live entities, in its current physical order.
    pub closed spec fn live(self) -> Seq<Entity> {
        self.entities@
    }

    /// The stack of released entities awaiting key reuse.
    pub closed spec fn free(self) -> Seq<Entity> {
        self.entities_free@
    }

    /// The indirection table: position in the dense array for each issued
    /// key, or `INVALID_INDEX` for a key that is not live.
    pub closed spec fn slots(self) -> Seq<u32> {
        self.entity_index@
    }

    /// How many distinct keys this pool has issued so far.
    pub closed spec fn key_count(self) -> nat {
        self.next_entity_key as nat
    }

    /// Whether `e` is currently a live member of this pool: its key maps to a
    /// valid dense-array position holding exactly `e`.
    pub closed spec fn spec_is_alive(self, e: Entity) -> bool {
        &&& e.key_spec() < self.slots().len()
        &&& self.slots()[e.key_spec() as int] != INVALID_INDEX
        &&& self.slots()[e.key_spec() as int] < self.live().len()
        &&& self.live()[self.slots()[e.key_spec() as int] as int] == e
    }

    /// The current dense-array position of `e`, read from the indirection
    /// table.  Meaningful only while [`Self::spec_is_alive`] holds of `e`.
    pub closed spec fn spec_index_of(self, e: Entity) -> int {
        self.slots()[e.key_spec() as int] as int
    }

    /// The pool's internal invariant, established by the constructors and
    /// preserved by every operation:
    /// - one indirection slot per issued key;
    /// - live and free entities together never outnumber the issued keys;
    /// - every live entity's key points back at its own position;
    /// - every valid indirection slot points at a live entity with that key;
    /// - every free entity's key is marked invalid, and free keys are
    ///   pairwise distinct.
    pub closed spec fn inv(self) -> bool {
        &&& self.slots().len() == self.key_count()
        &&& self.live().len() + self.free().len() <= self.slots().len()
        &&& forall|i: int|
            0 <= i < self.live().len() ==> (#[trigger] self.live()[i]).key_spec()
                < self.slots().len() && self.slots()[self.live()[i].key_spec() as int] == i as u32
        &&& forall|k: int|
            0 <= k < self.slots().len() && #[trigger] self.slots()[k] != INVALID_INDEX ==> (
            self.slots()[k] < self.live().len() && self.live()[self.slots()[k] as int].key_spec()
                == k as u32)
        &&& forall|j: int|
            0 <= j < self.free().len() ==> (#[trigger] self.free()[j]).key_spec()
                < self.slots().len() && self.slots()[self.free()[j].key_spec() as int]
                == INVALID_INDEX
        &&& forall|j1: int, j2: int|
            0 <= j1 < j2 < self.free().len() ==> (#[trigger] self.free()[j1]).key_spec() != (
            #[trigger] self.free()[j2]).key_spec()
    }

    /// Creates a new, empty pool.
    ///
    /// The pool does not allocate until entities are created.
    pub fn new() -> (pool: EntityPool)
        ensures
            pool.inv(),
            pool.live() == Seq::<Entity>::empty(),
            pool.free() == Seq::<Entity>::empty(),
            pool.key_count() == 0,
    {
        EntityPool::with_capacity(0, 0)
    }

    /// Creates a new, empty pool with the given storage capacities: room for
    /// `create_capacity` live entities and `return_capacity` released ones
    /// before reallocating.
    pub fn with_capacity(create_capacity: usize, return_capacity: usize) -> (pool: EntityPool)
        ensures
            pool.inv(),
            pool.live() == Seq::<Entity>::empty(),
            pool.free() == Seq::<Entity>::empty(),
            pool.key_count() == 0,
    {
        EntityPool {
            entities: Vec::with_capacity(create_capacity),
            entities_free: Vec::with_capacity(return_capacity),
            entity_index: Vec::with_capacity(create_capacity),
            next_entity_key: 0,
        }
    }

    /// Creates a unique entity, returning its current dense-array position
    /// and the entity itself.  The position is only guaranteed to remain
    /// valid until the next call to [`Self::return_entity`].
    ///
    /// If a released entity is waiting on the free stack, its key is reused
    /// under the next generation (wrapping); otherwise a fresh key is minted
    /// with generation 0.  The new entity is appended to the dense array.
    pub fn create_entity(&mut self) -> (r: (usize, Entity))
        requires
            old(self).inv(),
            old(self).free().len() > 0 || old(self).key_count() < 0xFFFF_FFFF,
        ensures
            final(self).inv(),
            r.0 == old(self).live().len(),
            final(self).live() == old(self).live().push(r.1),
            final(self).spec_is_alive(r.1),
            final(self).spec_index_of(r.1) == r.0,
            !old(self).spec_is_alive(r.1),
            r.1 != Entity::sentinel_spec(),
            forall|e: Entity|
                e != r.1 ==> (#[trigger] final(self).spec_is_alive(e) <==> old(
                    self,
                ).spec_is_alive(e)),
            old(self).free().len() > 0 ==> {
                &&& r.1.key_spec() == old(self).free().last().key_spec()
                &&& r.1.gen_spec() == next_gen(old(self).free().last().gen_spec())
                &&& final(self).free() == old(self).free().drop_last()
                &&& final(self).key_count() == old(self).key_count()
                &&& final(self).slots().len() == old(self).slots().len()
            },
            old(self).free().len() == 0 ==> {
                &&& r.1.key_spec() == old(self).key_count()
                &&& r.1.gen_spec() == 0
                &&& final(self).free() == old(self).free()
                &&& final(self).key_count() == old(self).key_count() + 1
            },
    {
        let (key, gen): (u32, u32) = match self.entities_free.pop() {
            Some(entity) => { (entity.key(), entity.gen().wrapping_add(1)) },
            None => {
                let key: u32 = self.next_entity_key;
                self.next_entity_key = key + 1;
                (key, 0)
            },
        };
        let entity = Entity::from_key_and_gen(key, gen);
        let index: u32 = self.entities.len() as u32;
        self.entities.push(entity);
        if key as usize != self.entity_index.len() {
            self.entity_index[key as usize] = index;
        } else {
            self.entity_index.push(index);
        }
        proof {
            assert(self.live() =~= old(self).live().push(entity));
            if old(self).free().len() > 0 {
                assert(self.free() =~= old(self).free().drop_last());
            }
            assert forall|e: Entity| e != entity implies (#[trigger] self.spec_is_alive(e)
                <==> old(self).spec_is_alive(e)) by {
                Entity::lemma_identity(e, entity);
            }
            Entity::lemma_sentinel_key();
            Entity::lemma_identity(entity, Entity::sentinel_spec());
        }
        (index as usize, entity)
    }

    /// Releases ownership of a live entity, allowing its key to be recycled.
    /// A recycled key comes back under the next generation, yielding a new,
    /// unique entity.
    ///
    /// Entities are stored in contiguous memory: the last live entity is
    /// swapped into the released entity's slot, so positions retrieved before
    /// this call are potentially invalidated.  The released entity is pushed
    /// onto the free stack and its indirection slot is marked invalid; every
    /// other live entity stays alive, at its old position except for the one
    /// swapped in.
    pub fn return_entity(&mut self, entity: Entity)
        requires
            old(self).inv(),
            old(self).spec_is_alive(entity),
        ensures
            final(self).inv(),
            final(self).live() == old(self).live().update(
                old(self).spec_index_of(entity),
                old(self).live().last(),
            ).drop_last(),
            final(self).live().len() == old(self).live().len() - 1,
            final(self).free() == old(self).free().push(entity),
            final(self).key_count() == old(self).key_count(),
            !final(self).spec_is_alive(entity),
            forall|e: Entity|
                e != entity ==> (#[trigger] final(self).spec_is_alive(e) <==> old(
                    self,
                ).spec_is_alive(e)),
    {
        let key: u32 = entity.key();
        let index: u32 = self.entity_index[key as usize];
        self.entities_free.push(entity);
        self.entities.swap_remove(index as usize);
        self.entity_index[key as usize] = INVALID_INDEX;
        if (index as usize) < self.entities.len() {
            let moved: Entity = self.entities[index as usize];
            self.entity_index[moved.key() as usize] = index;
        }
        proof {
            assert(self.free() =~= old(self).free().push(entity));
            assert forall|e: Entity| e != entity implies (#[trigger] self.spec_is_alive(e)
                <==> old(self).spec_is_alive(e)) by {
                Entity::lemma_identity(e, entity);
                if old(self).spec_is_alive(e) {
                    assert(old(self).live()[old(self).spec_index_of(e)] == e);
                }
            }
        }
    }

    /// Returns the current dense-array position of the given live entity.
    /// The position is only guaranteed to remain valid until the next call
    /// to [`Self::return_entity`].
    pub fn index_of(&self, entity: Entity) -> (index: usize)
        requires
            self.inv(),
            self.spec_is_alive(entity),
        ensures
            index == self.spec_index_of(entity),
            index < self.live().len(),
            self.live()[index as int] == entity,
    {
        let key: u32 = entity.key();
        self.entity_index[key as usize] as usize
    }

    /// Returns the entity currently occupying the given dense-array
    /// position.
    pub fn entity_at(&self, index: usize) -> (entity: Entity)
        requires
            index < self.live().len(),
        ensures
            entity == self.live()[index as int],
    {
        self.entities[index]
    }

    /// Returns `true` if this entity has not been released: its key still
    /// maps to a dense-array slot holding the same generation.  The entity
    /// must have been issued by this pool (its key below the pool's key
    /// count) and must not be the sentinel.
    pub fn is_alive(&self, entity: Entity) -> (alive: bool)
        requires
            self.inv(),
            entity.key_spec() < self.key_count(),
        ensures
            alive == self.spec_is_alive(entity),
    {
        let key: u32 = entity.key();
        let index: u32 = self.entity_index[key as usize];
        if index != INVALID_INDEX {
            let other: Entity = self.entities[index as usize];
            proof {
                Entity::lemma_identity(entity, other);
            }
            key == other.key() && entity.gen() == other.gen()
        } else {
            false
        }
    }

    /// Returns the live entities as a vector, in their current dense-array
    /// order (append/swap order, not creation order).  The entity at index
    /// `i` of the result sits at position `i` of the pool.
    pub fn iter(&self) -> (entities: Vec<Entity>)
        ensures
            entities@ == self.live(),
    {
        let mut out: Vec<Entity> = Vec::with_capacity(self.entities.len());
        let mut i: usize = 0;
        while i < self.entities.len()
            invariant
                i <= self.live().len(),
                out@ == self.live().subrange(0, i as int),
            decreases self.live().len() - i,
        {
            out.push(self.entities[i]);
            proof {
                assert(out@ =~= self.live().subrange(0, i + 1));
            }
            i = i + 1;
        }
        proof {
            assert(out@ =~= self.live());
        }
        out
    }

    /// Resets the pool to its initial state, without releasing allocated
    /// capacity.  All entities created prior to resetting are no longer
    /// members of this pool.
    pub fn reset(&mut self)
        ensures
            final(self).inv(),
            final(self).live() == Seq::<Entity>::empty(),
            final(self).free() == Seq::<Entity>::empty(),
            final(self).key_count() == 0,
            forall|e: Entity| !(#[trigger] final(self).spec_is_alive(e)),
    {
        self.entities.clear();
        self.entities_free.clear();
        self.entity_index.clear();
        self.next_entity_key = 0;
    }

    /// Reserves capacity for at least `additional` more entities to be
    /// created without reallocation.  The pool's contents are untouched.
    pub fn reserve(&mut self, additional: usize)
        ensures
            final(self).live() == old(self).live(),
            final(self).free() == old(self).free(),
            final(self).slots() == old(self).slots(),
            final(self).key_count() == old(self).key_count(),
            old(self).inv() ==> final(self).inv(),
    {
        self.entities.reserve(additional);
        self.entity_index.reserve(additional);
    }

    /// Reserves capacity for at least `additional` more entities to be
    /// released without reallocation.  The pool's contents are untouched.
    pub fn reserve_returned(&mut self, additional: usize)
        ensures
            final(self).live() == old(self).live(),
            final(self).free() == old(self).free(),
            final(self).slots() == old(self).slots(),
            final(self).key_count() == old(self).key_count(),
            old(self).inv() ==> final(self).inv(),
    {
        self.entities_free.reserve(additional);
    }

    /// Shrinks the storage of this pool as much as possible.  The pool's
    /// contents are untouched.
    pub fn shrink_to_fit(&mut self)
        ensures
            final(self).live() == old(self).live(),
            final(self).free() == old(self).free(),
            final(self).slots() == old(self).slots(),
            final(self).key_count() == old(self).key_count(),
            old(self).inv() ==> final(self).inv(),
    {
        vec_shrink_to_fit(&mut self.entities);
        vec_shrink_to_fit(&mut self.entities_free);
        vec_shrink_to_fit(&mut self.entity_index);
    }

    /// Returns the number of live entities this pool can hold without
    /// reallocating its dense array; at least the current live count.
    pub fn capacity(&self) -> (n: usize)
        ensures
            n >= self.live().len(),
    {
        vec_capacity(&self.entities)
    }

    /// Returns the number of released entities this pool can hold without
    /// reallocating its free stack; at least the current released count.
    pub fn capacity_returned(&self) -> (n: usize)
        ensures
            n >= self.free().len(),
    {
        vec_capacity(&self.entities_free)
    }

    /// Returns the number of live entities in this pool.
    pub fn len(&self) -> (n: usize)
        ensures
            n == self.live().len(),
    {
        self.entities.len()
    }

    /// Returns the number of released entities waiting to be recycled.
    pub fn len_returned(&self) -> (n: usize)
        ensures
            n == self.free().len(),
    {
        self.entities_free.len()
    }
}

/// Recycling changes identity: an entity whose key is reused under the next
/// generation is unequal to the entity that was released, so the old and the
/// new occupant of a key never alias.
pub proof fn lemma_recycle_changes_identity(released: Entity, recycled: Entity)
    requires
        recycled.key_spec() == released.key_spec(),
        recycled.gen_spec() == next_gen(released.gen_spec()),
    ensures
        recycled != released,
{
    Entity::lemma_identity(released, recycled);
}

/// Uniqueness of live entities: the dense array never holds the same entity
/// at two different positions.
pub proof fn lemma_live_entities_distinct(pool: EntityPool)
    requires
        pool.inv(),
    ensures
        forall|i: int, j: int|
            0 <= i < pool.live().len() && 0 <= j < pool.live().len() && i != j ==> #[trigger] pool.live()[i]
                != #[trigger] pool.live()[j],
{
    assert forall|i: int, j: int|
        0 <= i < pool.live().len() && 0 <= j < pool.live().len() && i != j implies #[trigger] pool.live()[i]
        != #[trigger] pool.live()[j] by {
        assert(pool.slots()[pool.live()[i].key_spec() as int] == i as u32);
        assert(pool.slots()[pool.live()[j].key_spec() as int] == j as u32);
        Entity::lemma_identity(pool.live()[i], pool.live()[j]);
    }
}

/// Indirection consistency: every live entity's recorded position is within
/// the dense array, and the dense array holds exactly that entity there.
pub proof fn lemma_indirection_consistency(pool: EntityPool, e: Entity)
    requires
        pool.inv(),
        pool.spec_is_alive(e),
    ensures
        0 <= pool.spec_index_of(e) < pool.live().len(),
        pool.live()[pool.spec_index_of(e)] == e,
{
}

/// Iteration/position agreement: every entity enumerated from the dense
/// array is alive, and sits at the position its own indirection entry
/// records — the i-th enumerated entity's position is exactly `i`.
pub proof fn lemma_iteration_position_agreement(pool: EntityPool)
    requires
        pool.inv(),
    ensures
        forall|i: int|
            0 <= i < pool.live().len() ==> pool.spec_is_alive(#[trigger] pool.live()[i])
                && pool.spec_index_of(pool.live()[i]) == i,
{
}

/// Enumeration is exact: an entity is alive in the pool if and only if the
/// dense array contains it.
pub proof fn lemma_alive_iff_enumerated(pool: EntityPool, e: Entity)
    requires
        pool.inv(),
    ensures
        pool.spec_is_alive(e) <==> pool.live().contains(e),
{
    if pool.spec_is_alive(e) {
        assert(pool.live()[pool.spec_index_of(e)] == e);
    }
    if pool.live().contains(e) {
        let i = choose|i: int| 0 <= i < pool.live().len() && pool.live()[i] == e;
        assert(pool.slots()[pool.live()[i].key_spec() as int] == i as u32);
    }
}

impl Default for EntityPool {
    /// Returns a new, empty pool.
    fn default() -> (pool: EntityPool)
        ensures
            pool.inv(),
            pool.live() == Seq::<Entity>::empty(),
            pool.free() == Seq::<Entity>::empty(),
            pool.key_count() == 0,
    {
        EntityPool::new()
    }
}

} // verus!
