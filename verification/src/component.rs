//! Identity of a component on the bar and the updates it sends.

use vstd::prelude::*;

verus! {

/// The horizontal region of the bar a component is assigned to.
#[derive(Clone, Copy, Debug, PartialEq, Eq, Structural)]
pub enum Slot {
    Left,
    Right,
    Center,
}

/// A new value from one component, tagged with the component's identity.
#[derive(Clone, Debug, PartialEq, Eq)]
pub struct ComponentUpdate {
    /// The slot the component was registered in.
    pub slot: Slot,
    /// Position of the component within its slot, in registration order.
    pub index: usize,
    /// Global id of the component: its index in the position table.
    pub id: usize,
    /// The text the component now shows.
    pub value: String,
}

/// Who a component is on the bar. It is given once, when the components
/// are registered, and never changes.
#[derive(Clone, Copy, Debug, PartialEq, Eq, Structural)]
pub struct ComponentIdentity {
    /// The slot the component was registered in.
    pub slot: Slot,
    /// Position of the component within its slot, in registration order.
    pub index: usize,
    /// Global id of the component: its index in the position table.
    pub id: usize,
}

/// How many of `slots` are `slot`.
pub open spec fn slot_count(slots: Seq<Slot>, slot: Slot) -> nat
    decreases slots.len(),
{
    if slots.len() == 0 {
        0
    } else {
        slot_count(slots.drop_last(), slot) + if slots.last() == slot {
            1nat
        } else {
            0nat
        }
    }
}

/// The id of the first component of `slot`: ids are given slot by slot, to
/// the left slot first, then to the center, then to the right.
pub open spec fn slot_base(slots: Seq<Slot>, slot: Slot) -> nat {
    match slot {
        Slot::Left => 0,
        Slot::Center => slot_count(slots, Slot::Left),
        Slot::Right => slot_count(slots, Slot::Left) + slot_count(slots, Slot::Center),
    }
}

/// The identity of the component registered as number `k`, where `slots`
/// holds the slot of every registered component in registration order.
pub open spec fn identity_of(slots: Seq<Slot>, k: int) -> ComponentIdentity {
    let index = slot_count(slots.take(k), slots[k]);
    ComponentIdentity {
        slot: slots[k],
        index: index as usize,
        id: (slot_base(slots, slots[k]) + index) as usize,
    }
}

/// Every component is of exactly one slot.
pub proof fn lemma_slot_count_total(slots: Seq<Slot>)
    ensures
        slot_count(slots, Slot::Left) + slot_count(slots, Slot::Center) + slot_count(
            slots,
            Slot::Right,
        ) == slots.len(),
    decreases slots.len(),
{
    if slots.len() > 0 {
        lemma_slot_count_total(slots.drop_last());
    }
}

/// A longer prefix holds no fewer components of a slot, and one that ends
/// after a component of the slot holds more than one that ends before it.
pub proof fn lemma_slot_count_prefix(slots: Seq<Slot>, slot: Slot, i: int, j: int)
    requires
        0 <= i <= j <= slots.len(),
    ensures
        slot_count(slots.take(i), slot) <= slot_count(slots.take(j), slot),
        i < j && slots[i] == slot ==> slot_count(slots.take(i), slot) < slot_count(
            slots.take(j),
            slot,
        ),
    decreases j - i,
{
    if i < j {
        assert(slots.take(j).drop_last() =~= slots.take(j - 1));
        lemma_slot_count_prefix(slots, slot, i, j - 1);
    }
}

/// Identities are unique: no two components share an id, every id is below
/// the number of components, and every index is below the number of
/// components of its slot.
pub proof fn lemma_identities_distinct(slots: Seq<Slot>, i: int, j: int)
    requires
        0 <= i < slots.len(),
        0 <= j < slots.len(),
        slots.len() <= usize::MAX,
    ensures
        identity_of(slots, i).index < slot_count(slots, slots[i]),
        identity_of(slots, i).id < slots.len(),
        identity_of(slots, i).id == slot_base(slots, slots[i]) + identity_of(slots, i).index,
        i != j ==> identity_of(slots, i).id != identity_of(slots, j).id,
{
    lemma_slot_count_total(slots);
    lemma_slot_count_prefix(slots, slots[i], i, slots.len() as int);
    lemma_slot_count_prefix(slots, slots[j], j, slots.len() as int);
    lemma_slot_count_prefix(slots, Slot::Left, 0, slots.len() as int);
    lemma_slot_count_prefix(slots, Slot::Center, 0, slots.len() as int);
    assert(slots.take(slots.len() as int) =~= slots);
    if i < j {
        lemma_slot_count_prefix(slots, slots[i], i, j);
    } else if j < i {
        lemma_slot_count_prefix(slots, slots[j], j, i);
    }
}

/// How many components are registered in the left, the center and the
/// right slot.
pub fn count_slots(slots: &Vec<Slot>) -> (counts: (usize, usize, usize))
    ensures
        counts.0 == slot_count(slots@, Slot::Left),
        counts.1 == slot_count(slots@, Slot::Center),
        counts.2 == slot_count(slots@, Slot::Right),
{
    let n: usize = slots.len();
    let mut left: usize = 0;
    let mut center: usize = 0;
    let mut right: usize = 0;
    let mut k: usize = 0;
    while k < n
        invariant
            k <= n,
            n == slots@.len(),
            left == slot_count(slots@.take(k as int), Slot::Left),
            center == slot_count(slots@.take(k as int), Slot::Center),
            right == slot_count(slots@.take(k as int), Slot::Right),
            left + center + right == k,
        decreases n - k,
    {
        proof {
            assert(slots@.take(k + 1).drop_last() =~= slots@.take(k as int));
        }
        match slots[k] {
            Slot::Left => {
                left += 1;
            },
            Slot::Center => {
                center += 1;
            },
            Slot::Right => {
                right += 1;
            },
        }
        k += 1;
    }
    proof {
        assert(slots@.take(n as int) =~= slots@);
    }
    (left, center, right)
}

/// Gives every registered component its identity. `slots` holds the slot of
/// every component in registration order.
pub fn assign_identities(slots: &Vec<Slot>) -> (ids: Vec<ComponentIdentity>)
    ensures
        ids@.len() == slots@.len(),
        forall|k: int| 0 <= k < slots@.len() ==> #[trigger] ids@[k] == identity_of(slots@, k),
{
    let n: usize = slots.len();
    let (left, center, _) = count_slots(slots);
    proof {
        lemma_slot_count_total(slots@);
    }
    let mut ids: Vec<ComponentIdentity> = Vec::new();
    let mut l: usize = 0;
    let mut c: usize = 0;
    let mut r: usize = 0;
    let mut k: usize = 0;
    while k < n
        invariant
            k <= n,
            n == slots@.len(),
            left == slot_count(slots@, Slot::Left),
            center == slot_count(slots@, Slot::Center),
            left + center + slot_count(slots@, Slot::Right) == n,
            l == slot_count(slots@.take(k as int), Slot::Left),
            c == slot_count(slots@.take(k as int), Slot::Center),
            r == slot_count(slots@.take(k as int), Slot::Right),
            ids@.len() == k,
            forall|i: int| 0 <= i < k ==> #[trigger] ids@[i] == identity_of(slots@, i),
        decreases n - k,
    {
        proof {
            assert(slots@.take(k + 1).drop_last() =~= slots@.take(k as int));
            lemma_slot_count_prefix(slots@, slots@[k as int], k as int, n as int);
            assert(slots@.take(n as int) =~= slots@);
        }
        let slot = slots[k];
        match slot {
            Slot::Left => {
                ids.push(ComponentIdentity { slot, index: l, id: l });
                l += 1;
            },
            Slot::Center => {
                ids.push(ComponentIdentity { slot, index: c, id: left + c });
                c += 1;
            },
            Slot::Right => {
                ids.push(ComponentIdentity { slot, index: r, id: left + center + r });
                r += 1;
            },
        }
        k += 1;
    }
    ids
}

} // verus!
