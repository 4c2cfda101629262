//! Picks quote indices in a shuffled order, so that repeats are rare.

use vstd::prelude::*;

use rand::seq::SliceRandom;

verus! {

/// The longest list of indices that is shuffled at once.
pub const RANDOM_INDEX_SIZE: usize = 64;

/// Relies on rand's `SliceRandom::shuffle` with `thread_rng`: the items
/// are put in a random order, none added or lost (it only swaps them).
#[verifier::external_body]
fn shuffle(v: &mut Vec<i32>)
    ensures
        final(v)@.to_multiset() == old(v)@.to_multiset(),
{
    v.shuffle(&mut rand::thread_rng());
}

/// How many indices one shuffled list holds for `count` items.
pub open spec fn list_size(count: int) -> int {
    if count <= 0 {
        0
    } else if count < RANDOM_INDEX_SIZE {
        count
    } else {
        RANDOM_INDEX_SIZE as int
    }
}

/// The indices 1 up to `size`, in order.
pub open spec fn indices(size: int) -> Seq<i32> {
    Seq::new(size as nat, |i: int| (i + 1) as i32)
}

/// `list` is a shuffled list for `count` items.
pub open spec fn is_shuffled_list(list: Seq<i32>, count: int) -> bool {
    list.to_multiset() == indices(list_size(count)).to_multiset()
}

/// Hands out the indices 1 up to the count (at most 64 of them) in a
/// shuffled order, and shuffles anew when they are used up.
pub struct RandomIndex {
    count: i32,
    list: Vec<i32>,
    local_index: usize,
    initialized: bool,
}

impl RandomIndex {
    #[verifier::type_invariant]
    spec fn inv(&self) -> bool {
        &&& self.local_index <= RANDOM_INDEX_SIZE
        &&& self.list@.len() <= RANDOM_INDEX_SIZE
    }

    /// The number of items to pick from.
    pub closed spec fn count_spec(&self) -> int {
        self.count as int
    }

    /// The current shuffled list.
    pub closed spec fn list_spec(&self) -> Seq<i32> {
        self.list@
    }

    /// The position of the index handed out last.
    pub closed spec fn position(&self) -> int {
        self.local_index as int
    }

    /// Whether `init` has taken effect.
    pub closed spec fn is_initialized(&self) -> bool {
        self.initialized
    }

    /// An index over no items, not yet initialized.
    pub fn new() -> (r: Self)
        ensures
            r.count_spec() == 0,
            r.list_spec() == Seq::<i32>::empty(),
            r.position() == 0,
            !r.is_initialized(),
    {
        RandomIndex { count: 0, list: Vec::new(), local_index: 0, initialized: false }
    }

    /// The first time only: sets the count and shuffles a list for it.
    pub fn init(&mut self, count: i32)
        ensures
            old(self).is_initialized() ==> *final(self) == *old(self),
            !old(self).is_initialized() ==> {
                &&& final(self).is_initialized()
                &&& final(self).count_spec() == count
                &&& is_shuffled_list(final(self).list_spec(), count as int)
                &&& final(self).position() == old(self).position()
            },
    {
        proof {
            use_type_invariant(&*self);
        }
        if !self.initialized {
            let list = Self::generate_list(count);
            self.count = count;
            self.list = list;
            self.initialized = true;
        }
    }

    /// The next index; a fresh shuffle when the list is used up. `None`
    /// when there is nothing to pick from.
    pub fn get(&mut self) -> (r: Option<&i32>)
        ensures
            final(self).count_spec() == old(self).count_spec(),
            final(self).is_initialized() == old(self).is_initialized(),
            old(self).position() + 1 < old(self).list_spec().len() ==> {
                &&& final(self).list_spec() == old(self).list_spec()
                &&& final(self).position() == old(self).position() + 1
                &&& r == Some(&old(self).list_spec()[old(self).position() + 1])
            },
            old(self).position() + 1 >= old(self).list_spec().len() ==> {
                &&& is_shuffled_list(final(self).list_spec(), old(self).count_spec())
                &&& final(self).position() == 0
                &&& final(self).list_spec().len() > 0 ==> r == Some(&final(self).list_spec()[0])
                &&& final(self).list_spec().len() == 0 ==> r is None
            },
    {
        proof {
            use_type_invariant(&*self);
        }
        let next = self.local_index + 1;
        if next >= self.list.len() {
            self.list = Self::generate_list(self.count);
            self.local_index = 0;
        } else {
            self.local_index = next;
        }
        if self.local_index < self.list.len() {
            Some(&self.list[self.local_index])
        } else {
            None
        }
    }

    /// Sets the number of items; the next shuffle uses it.
    pub fn update_count(&mut self, new_count: i32)
        ensures
            final(self).count_spec() == new_count,
            final(self).list_spec() == old(self).list_spec(),
            final(self).position() == old(self).position(),
            final(self).is_initialized() == old(self).is_initialized(),
    {
        proof {
            use_type_invariant(&*self);
        }
        self.count = new_count;
    }

    /// Shuffles a new list for the current count right away.
    pub fn _force_shuffle(&mut self)
        ensures
            final(self).count_spec() == old(self).count_spec(),
            is_shuffled_list(final(self).list_spec(), old(self).count_spec()),
            final(self).position() == old(self).position(),
            final(self).is_initialized() == old(self).is_initialized(),
    {
        proof {
            use_type_invariant(&*self);
        }
        self.list = Self::generate_list(self.count);
    }

    fn generate_list(count: i32) -> (r: Vec<i32>)
        ensures
            is_shuffled_list(r@, count as int),
            r@.len() <= RANDOM_INDEX_SIZE,
    {
        let size: i32 = if count < RANDOM_INDEX_SIZE as i32 {
            count
        } else {
            RANDOM_INDEX_SIZE as i32
        };
        let mut numbers: Vec<i32> = Vec::new();
        let mut i: i32 = 1;
        while i <= size
            invariant
                size <= RANDOM_INDEX_SIZE,
                1 <= i,
                size >= 0 ==> i <= size + 1,
                size < 0 ==> i == 1,
                numbers@ == indices(i - 1),
            decreases size + 1 - i,
        {
            numbers.push(i);
            proof {
                assert(numbers@ =~= indices(i as int));
            }
            i = i + 1;
        }
        proof {
            assert(indices(list_size(count as int)) =~= numbers@);
            numbers@.to_multiset_ensures();
        }
        let ghost before = numbers@;
        shuffle(&mut numbers);
        proof {
            numbers@.to_multiset_ensures();
            before.to_multiset_ensures();
        }
        numbers
    }
}

} // verus!
