use vstd::prelude::*;

use std::any::TypeId;

use crate::canonicalize::truncate_type;
use crate::grammar::descriptor_tree;
use crate::model::canon;
use crate::parse::parse_descriptor;
use crate::render::render;
use crate::text::text;

verus! {

#[verifier::external_type_specification]
#[verifier::external_body]
pub struct ExTypeId(std::any::TypeId);

/// Relies on TypeId's `==`: it holds exactly when both identities are the same.
#[verifier::external_body]
fn same_type_id(a: &TypeId, b: &TypeId) -> (r: bool)
    ensures
        r == (*a == *b),
{
    *a == *b
}

/// Relies on String::leak: the text stays as it is and lives until the
/// process ends.
#[verifier::external_body]
fn leak_name(s: String) -> (r: &'static str)
    ensures
        r@ == s@,
{
    s.leak()
}

/// The name given for a descriptor: the text of its canonical tree, or
/// `<error>` where the descriptor does not parse.
pub open spec fn canonical_text(d: Seq<char>) -> Seq<char> {
    match descriptor_tree(d) {
        Some(t) => text(canon(t)),
        None => "<error>"@,
    }
}

/// The short name of a full type descriptor: parsed, canonicalized and
/// rendered; `<error>` where it does not parse.
pub fn canonical_name(descriptor: &str) -> (r: String)
    ensures
        r@ == canonical_text(descriptor@),
{
    match parse_descriptor(descriptor) {
        Some(mut t) => {
            truncate_type(&mut t);
            render(&t)
        },
        None => String::from_str("<error>"),
    }
}

/// What a lookup of `key` does to a cache that maps `before`: a name already
/// there is returned and nothing changes; otherwise the name of the
/// descriptor `d` is computed, stored and returned.
pub open spec fn lookup_outcome(
    before: Map<TypeId, Seq<char>>,
    after: Map<TypeId, Seq<char>>,
    key: TypeId,
    d: Seq<char>,
    r: Seq<char>,
) -> bool {
    if before.contains_key(key) {
        r == before[key] && after == before
    } else {
        r == canonical_text(d) && after == before.insert(key, r)
    }
}

/// Names computed so far, one per type identity; entries are written once,
/// never change, and live until the process ends.
pub struct NameCache {
    keys: Vec<TypeId>,
    names: Vec<&'static str>,
}

impl NameCache {
    pub closed spec fn wf(&self) -> bool {
        &&& self.keys@.len() == self.names@.len()
        &&& forall|i: int, j: int|
            0 <= i < j < self.keys@.len() ==> self.keys@[i] != self.keys@[j]
    }

    pub closed spec fn view(&self) -> Map<TypeId, Seq<char>> {
        Map::new(
            |k: TypeId| self.keys@.contains(k),
            |k: TypeId| self.names@[self.keys@.index_of(k)]@,
        )
    }

    pub fn new() -> (c: NameCache)
        ensures
            c.wf(),
            c.view() == Map::<TypeId, Seq<char>>::empty(),
    {
        let c = NameCache { keys: Vec::new(), names: Vec::new() };
        proof {
            assert(c.view() =~= Map::<TypeId, Seq<char>>::empty());
        }
        c
    }

    /// The name stored for `key`, if any.
    pub fn lookup(&self, key: &TypeId) -> (r: Option<&'static str>)
        requires
            self.wf(),
        ensures
            match r {
                Some(n) => self.view().contains_key(*key) && n@ == self.view()[*key],
                None => !self.view().contains_key(*key),
            },
    {
        let mut i: usize = 0;
        while i < self.keys.len()
            invariant
                self.wf(),
                i <= self.keys@.len(),
                forall|j: int| 0 <= j < i ==> self.keys@[j] != *key,
            decreases self.keys@.len() - i,
        {
            if same_type_id(&self.keys[i], key) {
                proof {
                    assert(self.keys@.contains(*key));
                    let k = self.keys@.index_of(*key);
                    assert(k == i);
                }
                return Some(self.names[i]);
            }
            i = i + 1;
        }
        None
    }

    /// The name for `key`: the stored one where there is one, else the name of
    /// `descriptor`, which is stored for later lookups.
    pub fn name_for(&mut self, key: TypeId, descriptor: &str) -> (r: &'static str)
        requires
            old(self).wf(),
        ensures
            final(self).wf(),
            lookup_outcome(old(self).view(), final(self).view(), key, descriptor@, r@),
    {
        match self.lookup(&key) {
            Some(n) => n,
            None => {
                let name = leak_name(canonical_name(descriptor));
                let ghost before = *self;
                self.keys.push(key);
                self.names.push(name);
                proof {
                    assert forall|i: int, j: int|
                        0 <= i < j < self.keys@.len() implies self.keys@[i] != self.keys@[j] by {
                        if j == before.keys@.len() {
                            assert(!before.keys@.contains(key));
                            assert(before.keys@[i] == self.keys@[i]);
                        }
                    }
                    assert forall|k: TypeId| #[trigger]
                        self.view().contains_key(k) == before.view().insert(
                            key,
                            name@,
                        ).contains_key(k) by {
                        if k != key && self.keys@.contains(k) {
                            let x = choose|x: int| 0 <= x < self.keys@.len() && self.keys@[x] == k;
                            assert(before.keys@[x] == k);
                        }
                        if before.keys@.contains(k) {
                            let x = choose|x: int|
                                0 <= x < before.keys@.len() && before.keys@[x] == k;
                            assert(self.keys@[x] == k);
                        }
                        if k == key {
                            assert(self.keys@[before.keys@.len() as int] == k);
                        }
                    }
                    assert forall|k: TypeId| #[trigger] self.view().contains_key(k) implies self.view()[k]
                        == before.view().insert(key, name@)[k] by {
                        let x = self.keys@.index_of(k);
                        assert(self.keys@[x] == k);
                        if k == key {
                            assert(self.keys@[before.keys@.len() as int] == k);
                            assert(x == before.keys@.len());
                        } else {
                            assert(x < before.keys@.len());
                            let y = before.keys@.index_of(k);
                            assert(before.keys@.contains(k));
                            assert(before.keys@[y] == k);
                            assert(self.keys@[y] == k);
                            assert(x == y);
                        }
                    }
                    assert(self.view() =~= before.view().insert(key, name@));
                }
                name
            },
        }
    }
}

} // verus!
