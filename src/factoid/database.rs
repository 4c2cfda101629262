//! The storage contract for factoids, and a store that keeps them in
//! memory.

use vstd::prelude::*;

use super::error::{fails_with, ErrorKind, FactoidError};

verus! {

/// A stored factoid as a mathematical value.
pub struct FactoidRecord {
    pub name: Seq<char>,
    pub idx: int,
    pub content: Seq<char>,
    pub author: Seq<char>,
    pub created: int,
}

/// One version of a named factoid. `created` is in seconds since the
/// Unix epoch, UTC.
#[derive(Clone, Debug)]
pub struct Factoid {
    pub name: String,
    pub idx: i32,
    pub content: String,
    pub author: String,
    pub created: i64,
}

impl View for Factoid {
    type V = FactoidRecord;

    open spec fn view(&self) -> FactoidRecord {
        FactoidRecord {
            name: self.name@,
            idx: self.idx as int,
            content: self.content@,
            author: self.author@,
            created: self.created as int,
        }
    }
}

impl Factoid {
    /// A copy of this record.
    pub fn clone_record(&self) -> (r: Factoid)
        ensures
            r@ == self@,
    {
        Factoid {
            name: self.name.clone(),
            idx: self.idx,
            content: self.content.clone(),
            author: self.author.clone(),
            created: self.created,
        }
    }
}

/// A factoid that is about to be stored.
pub struct NewFactoid<'a> {
    pub name: &'a str,
    pub idx: i32,
    pub content: &'a str,
    pub author: &'a str,
    pub created: i64,
}

impl<'a> View for NewFactoid<'a> {
    type V = FactoidRecord;

    open spec fn view(&self) -> FactoidRecord {
        FactoidRecord {
            name: self.name@,
            idx: self.idx as int,
            content: self.content@,
            author: self.author@,
            created: self.created as int,
        }
    }
}

/// The number of records named `name`.
pub open spec fn count_named(s: Seq<FactoidRecord>, name: Seq<char>) -> nat
    decreases s.len(),
{
    if s.len() == 0 {
        0
    } else {
        count_named(s.drop_last(), name) + if s.last().name == name {
            1nat
        } else {
            0nat
        }
    }
}

pub open spec fn is_key(r: FactoidRecord, name: Seq<char>, idx: int) -> bool {
    r.name == name && r.idx == idx
}

pub open spec fn has_key(s: Seq<FactoidRecord>, name: Seq<char>, idx: int) -> bool {
    exists|i: int| 0 <= i < s.len() && is_key(#[trigger] s[i], name, idx)
}

/// The position of the record stored under (`name`, `idx`).
pub open spec fn key_index(s: Seq<FactoidRecord>, name: Seq<char>, idx: int) -> int {
    choose|i: int| 0 <= i < s.len() && is_key(#[trigger] s[i], name, idx)
}

/// No two records share a name and a version.
pub open spec fn keys_unique(s: Seq<FactoidRecord>) -> bool {
    forall|i: int, j: int|
        0 <= i < j < s.len() ==> !is_key(#[trigger] s[i], s[j].name, #[trigger] s[j].idx)
}

/// The highest version index stored under `name`, if any.
pub open spec fn max_idx(s: Seq<FactoidRecord>, name: Seq<char>) -> Option<int>
    decreases s.len(),
{
    if s.len() == 0 {
        None
    } else {
        let prev = max_idx(s.drop_last(), name);
        if s.last().name == name {
            match prev {
                Some(m) => if m >= s.last().idx {
                    Some(m)
                } else {
                    Some(s.last().idx)
                },
                None => Some(s.last().idx),
            }
        } else {
            prev
        }
    }
}

/// `max_idx` is `None` exactly when no record has the name, and otherwise
/// the index of a record of that name that no other record of it exceeds.
pub proof fn lemma_max_idx(s: Seq<FactoidRecord>, name: Seq<char>)
    ensures
        max_idx(s, name) is None <==> forall|i: int| 0 <= i < s.len() ==> (#[trigger] s[i]).name != name,
        max_idx(s, name) matches Some(m) ==> has_key(s, name, m) && forall|i: int|
            0 <= i < s.len() && (#[trigger] s[i]).name == name ==> s[i].idx <= m,
    decreases s.len(),
{
    if s.len() > 0 {
        let t = s.drop_last();
        let n = s.len() - 1;
        let last = s[n];
        lemma_max_idx(t, name);
        assert forall|i: int| 0 <= i < t.len() implies #[trigger] t[i] == s[i] by {}
        if last.name == name {
            assert(is_key(s[n], name, last.idx));
            match max_idx(t, name) {
                Some(m) => {
                    let j = choose|j: int| 0 <= j < t.len() && is_key(#[trigger] t[j], name, m);
                    assert(s[j] == t[j]);
                    assert(has_key(s, name, m));
                    assert(has_key(s, name, last.idx));
                    assert forall|i: int|
                        0 <= i < s.len() && (#[trigger] s[i]).name == name implies s[i].idx
                        <= max_idx(s, name)->Some_0 by {
                        if i < n {
                            assert(t[i] == s[i]);
                        }
                    }
                },
                None => {
                    assert(has_key(s, name, last.idx));
                    assert forall|i: int|
                        0 <= i < s.len() && (#[trigger] s[i]).name == name implies s[i].idx
                        <= last.idx by {
                        if i < n {
                            assert(t[i] == s[i]);
                        }
                    }
                },
            }
        } else {
            match max_idx(t, name) {
                Some(m) => {
                    let j = choose|j: int| 0 <= j < t.len() && is_key(#[trigger] t[j], name, m);
                    assert(s[j] == t[j]);
                    assert(has_key(s, name, m));
                    assert forall|i: int|
                        0 <= i < s.len() && (#[trigger] s[i]).name == name implies s[i].idx <= m by {
                        if i < n {
                            assert(t[i] == s[i]);
                        }
                    }
                },
                None => {
                    assert forall|i: int| 0 <= i < s.len() implies (#[trigger] s[i]).name != name by {
                        if i < n {
                            assert(t[i] == s[i]);
                        }
                    }
                },
            }
        }
    }
}

/// A store of factoid versions, keyed by name and version index.
pub trait Database {
    /// The stored records.
    spec fn records(&self) -> Seq<FactoidRecord>;

    /// The store answers each call from its records alone: no call fails
    /// for a reason of its own (a lost connection, say).
    spec fn answers(&self) -> bool;

    /// Stores `factoid`, unless its key is taken.
    fn insert_factoid(&mut self, factoid: &NewFactoid) -> (r: Result<(), FactoidError>)
        ensures
            final(self).answers() == old(self).answers(),
            r is Ok ==> !has_key(old(self).records(), factoid@.name, factoid@.idx)
                && final(self).records() == old(self).records().push(factoid@),
            r is Err ==> final(self).records() == old(self).records(),
            old(self).answers() && has_key(old(self).records(), factoid@.name, factoid@.idx)
                ==> fails_with(r, ErrorKind::Duplicate),
            old(self).answers() && !has_key(old(self).records(), factoid@.name, factoid@.idx)
                && old(self).records().len() < i32::MAX ==> r is Ok,
    ;

    /// The record stored under (`name`, `idx`).
    fn get_factoid(&self, name: &str, idx: i32) -> (r: Result<Factoid, FactoidError>)
        ensures
            r matches Ok(f) ==> has_key(self.records(), name@, idx as int) && f@ == self.records()[key_index(
                self.records(),
                name@,
                idx as int,
            )],
            self.answers() && has_key(self.records(), name@, idx as int) ==> r is Ok,
            self.answers() && !has_key(self.records(), name@, idx as int) ==> fails_with(
                r,
                ErrorKind::NotFound,
            ),
    ;

    /// Deletes the record stored under (`name`, `idx`).
    fn delete_factoid(&mut self, name: &str, idx: i32) -> (r: Result<(), FactoidError>)
        ensures
            final(self).answers() == old(self).answers(),
            r is Ok ==> has_key(old(self).records(), name@, idx as int) && final(self).records()
                == old(self).records().remove(key_index(old(self).records(), name@, idx as int)),
            r is Err ==> final(self).records() == old(self).records(),
            old(self).answers() && has_key(old(self).records(), name@, idx as int) ==> r is Ok,
            old(self).answers() && !has_key(old(self).records(), name@, idx as int) ==> fails_with(
                r,
                ErrorKind::NotFound,
            ),
    ;

    /// The number of versions stored under `name`.
    fn count_factoids(&self, name: &str) -> (r: Result<i32, FactoidError>)
        ensures
            r matches Ok(c) ==> c as int == count_named(self.records(), name@),
            self.answers() ==> r is Ok,
    ;

    /// The highest version index stored under `name`, if any.
    fn latest_version(&self, name: &str) -> (r: Result<Option<i32>, FactoidError>)
        ensures
            r matches Ok(v) ==> version_view(v) == max_idx(self.records(), name@),
            self.answers() ==> r is Ok,
    ;
}

pub open spec fn version_view(v: Option<i32>) -> Option<int> {
    match v {
        Some(i) => Some(i as int),
        None => None,
    }
}

pub open spec fn record_views(v: Seq<Factoid>) -> Seq<FactoidRecord> {
    v.map_values(|f: Factoid| f@)
}

/// Factoids kept in memory, in the order they were added.
pub struct MemoryDatabase {
    factoids: Vec<Factoid>,
}

impl MemoryDatabase {
    #[verifier::type_invariant]
    spec fn inv(&self) -> bool {
        &&& keys_unique(record_views(self.factoids@))
        &&& self.factoids@.len() <= i32::MAX
    }

    /// An empty store.
    pub fn new() -> (r: Self)
        ensures
            r.records() == Seq::<FactoidRecord>::empty(),
            r.answers(),
    {
        let r = MemoryDatabase { factoids: Vec::new() };
        assert(record_views(r.factoids@) =~= Seq::<FactoidRecord>::empty());
        r
    }

    /// The number of stored records.
    pub fn len(&self) -> (r: usize)
        ensures
            r == self.records().len(),
    {
        self.factoids.len()
    }

    fn find(&self, name: &str, idx: i32) -> (r: Option<usize>)
        ensures
            r is None <==> !has_key(self.records(), name@, idx as int),
            r matches Some(i) ==> i < self.records().len() && key_index(
                self.records(),
                name@,
                idx as int,
            ) == i && is_key(self.records()[i as int], name@, idx as int),
    {
        proof {
            use_type_invariant(self);
        }
        let key = name.to_owned();
        let n = self.factoids.len();
        let mut i: usize = 0;
        while i < n
            invariant
                n == self.factoids@.len(),
                i <= n,
                key@ == name@,
                keys_unique(record_views(self.factoids@)),
                forall|j: int|
                    0 <= j < i ==> !is_key(#[trigger] record_views(self.factoids@)[j], name@, idx as int),
            decreases n - i,
        {
            if self.factoids[i].idx == idx && self.factoids[i].name == key {
                proof {
                    let s = record_views(self.factoids@);
                    assert(is_key(s[i as int], name@, idx as int));
                    assert(has_key(s, name@, idx as int));
                    let k = key_index(s, name@, idx as int);
                    assert(0 <= k < s.len() && is_key(s[k], name@, idx as int));
                    if k != i as int {
                        if k < i {
                            assert(!is_key(s[k], s[i as int].name, s[i as int].idx));
                        } else {
                            assert(!is_key(s[i as int], s[k].name, s[k].idx));
                        }
                    }
                }
                return Some(i);
            }
            i = i + 1;
        }
        None
    }
}

impl Database for MemoryDatabase {
    closed spec fn records(&self) -> Seq<FactoidRecord> {
        record_views(self.factoids@)
    }

    /// Memory never fails on its own account.
    closed spec fn answers(&self) -> bool {
        true
    }

    fn insert_factoid(&mut self, factoid: &NewFactoid) -> (r: Result<(), FactoidError>) {
        proof {
            use_type_invariant(&*self);
        }
        if self.find(factoid.name, factoid.idx).is_some() {
            return Err(FactoidError::new(ErrorKind::Duplicate));
        }
        if self.factoids.len() >= i32::MAX as usize {
            return Err(FactoidError::new(ErrorKind::Full));
        }
        let f = Factoid {
            name: factoid.name.to_owned(),
            idx: factoid.idx,
            content: factoid.content.to_owned(),
            author: factoid.author.to_owned(),
            created: factoid.created,
        };
        let mut v: Vec<Factoid> = Vec::new();
        std::mem::swap(&mut v, &mut self.factoids);
        let ghost before = v@;
        v.push(f);
        proof {
            assert(record_views(v@) =~= record_views(before).push(factoid@));
            let s = record_views(v@);
            assert forall|i: int, j: int| 0 <= i < j < s.len() implies !is_key(
                #[trigger] s[i],
                s[j].name,
                #[trigger] s[j].idx,
            ) by {
                if j == s.len() - 1 {
                    assert(record_views(before)[i] == s[i]);
                }
            }
        }
        self.factoids = v;
        Ok(())
    }

    fn get_factoid(&self, name: &str, idx: i32) -> (r: Result<Factoid, FactoidError>) {
        match self.find(name, idx) {
            Some(i) => Ok(self.factoids[i].clone_record()),
            None => Err(FactoidError::new(ErrorKind::NotFound)),
        }
    }

    fn delete_factoid(&mut self, name: &str, idx: i32) -> (r: Result<(), FactoidError>) {
        proof {
            use_type_invariant(&*self);
        }
        match self.find(name, idx) {
            Some(i) => {
                let mut v: Vec<Factoid> = Vec::new();
                std::mem::swap(&mut v, &mut self.factoids);
                let ghost before = v@;
                v.remove(i);
                proof {
                    assert(record_views(v@) =~= record_views(before).remove(i as int));
                    let s = record_views(v@);
                    let t = record_views(before);
                    assert forall|a: int, b: int| 0 <= a < b < s.len() implies !is_key(
                        #[trigger] s[a],
                        s[b].name,
                        #[trigger] s[b].idx,
                    ) by {
                        let a2 = if a < i { a } else { a + 1 };
                        let b2 = if b < i { b } else { b + 1 };
                        assert(s[a] == t[a2]);
                        assert(s[b] == t[b2]);
                        assert(!is_key(t[a2], t[b2].name, t[b2].idx));
                    }
                }
                self.factoids = v;
                Ok(())
            },
            None => Err(FactoidError::new(ErrorKind::NotFound)),
        }
    }

    fn count_factoids(&self, name: &str) -> (r: Result<i32, FactoidError>) {
        proof {
            use_type_invariant(self);
        }
        let key = name.to_owned();
        let n = self.factoids.len();
        let mut count: i32 = 0;
        let mut i: usize = 0;
        while i < n
            invariant
                n == self.factoids@.len(),
                n <= i32::MAX,
                i <= n,
                key@ == name@,
                count as int == count_named(record_views(self.factoids@).take(i as int), name@),
                count <= i,
            decreases n - i,
        {
            proof {
                let s = record_views(self.factoids@);
                assert(s.take(i as int + 1).drop_last() =~= s.take(i as int));
                assert(s.take(i as int + 1).last() == s[i as int]);
            }
            if self.factoids[i].name == key {
                count = count + 1;
            }
            i = i + 1;
        }
        proof {
            assert(record_views(self.factoids@).take(n as int) =~= record_views(self.factoids@));
        }
        Ok(count)
    }

    fn latest_version(&self, name: &str) -> (r: Result<Option<i32>, FactoidError>) {
        let key = name.to_owned();
        let n = self.factoids.len();
        let mut best: Option<i32> = None;
        let mut i: usize = 0;
        while i < n
            invariant
                n == self.factoids@.len(),
                i <= n,
                key@ == name@,
                version_view(best) == max_idx(record_views(self.factoids@).take(i as int), name@),
            decreases n - i,
        {
            proof {
                let s = record_views(self.factoids@);
                assert(s.take(i as int + 1).drop_last() =~= s.take(i as int));
                assert(s.take(i as int + 1).last() == s[i as int]);
            }
            if self.factoids[i].name == key {
                let idx = self.factoids[i].idx;
                best = match best {
                    Some(m) => if m >= idx {
                        Some(m)
                    } else {
                        Some(idx)
                    },
                    None => Some(idx),
                };
            }
            i = i + 1;
        }
        proof {
            assert(record_views(self.factoids@).take(n as int) =~= record_views(self.factoids@));
        }
        Ok(best)
    }
}

} // verus!
