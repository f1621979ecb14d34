//! The wire shape of documents and partial updates.
//!
//! Post, Patch and View companions are representable as key/value documents
//! with lower-camel-case keys; a [`Doc`] is such a document.  An [`Update`]
//! is the composable partial-update descriptor the store consumes: six
//! independent operation groups, where within a group the last write for a
//! given field wins, and finalizing always stamps the update time.

use vstd::prelude::*;

verus! {

/// A wire value: the shapes the data model serializes to.
pub enum Value {
    Null,
    Flag(bool),
    Num(i64),
    Text(String),
    Ref(u64),
    Refs(Vec<u64>),
    Texts(Vec<String>),
}

/// Wire equality: texts compare by their characters.
pub open spec fn veq(a: Value, b: Value) -> bool {
    match (a, b) {
        (Value::Null, Value::Null) => true,
        (Value::Flag(x), Value::Flag(y)) => x == y,
        (Value::Num(x), Value::Num(y)) => x == y,
        (Value::Text(x), Value::Text(y)) => x@ == y@,
        (Value::Ref(x), Value::Ref(y)) => x == y,
        (Value::Refs(x), Value::Refs(y)) => x@ == y@,
        (Value::Texts(x), Value::Texts(y)) => x@.map_values(|s: String| s@) == y@.map_values(
            |s: String| s@,
        ),
        _ => false,
    }
}

/// A key/value document with unique keys.
pub struct Doc {
    pub fields: Vec<(String, Value)>,
}

impl Doc {
    /// The keys, in insertion order.
    pub open spec fn keys(self) -> Seq<Seq<char>> {
        self.fields@.map_values(|f: (String, Value)| f.0@)
    }

    pub open spec fn has_key(self, k: Seq<char>) -> bool {
        self.keys().contains(k)
    }

    /// The position of a key.
    pub open spec fn key_idx(self, k: Seq<char>) -> int {
        choose|i: int| 0 <= i < self.fields@.len() && self.fields@[i].0@ == k
    }

    /// The value stored under a key.
    pub open spec fn val(self, k: Seq<char>) -> Value {
        self.fields@[self.key_idx(k)].1
    }

    /// Keys do not repeat.
    pub open spec fn wf(self) -> bool {
        forall|i: int, j: int|
            0 <= i < j < self.fields@.len() ==> self.fields@[i].0@ != self.fields@[j].0@
    }

    pub fn new() -> (r: Self)
        ensures
            r.wf(),
            r.fields@.len() == 0,
    {
        Doc { fields: Vec::new() }
    }

    pub fn len(&self) -> (r: usize)
        ensures
            r == self.fields@.len(),
    {
        self.fields.len()
    }

    /// Write a field: a later write for the same key wins over an earlier
    /// one, every other field stays.
    pub fn put(&mut self, k: String, v: Value)
        requires
            old(self).wf(),
        ensures
            final(self).wf(),
            final(self).has_key(k@),
            final(self).val(k@) == v,
            forall|q: Seq<char>| final(self).has_key(q) == (old(self).has_key(q) || q == k@),
            forall|q: Seq<char>|
                q != k@ && old(self).has_key(q) ==> final(self).val(q) == old(self).val(q),
            old(self).has_key(k@) ==> final(self).fields@.len() == old(self).fields@.len(),
            !old(self).has_key(k@) ==> final(self).fields@.len() == old(self).fields@.len() + 1,
    {
        let mut i: usize = 0;
        while i < self.fields.len()
            invariant
                old(self).wf(),
                *self == *old(self),
                i <= self.fields@.len(),
                forall|j: int| 0 <= j < i ==> self.fields@[j].0@ != k@,
            decreases self.fields@.len() - i,
        {
            if self.fields[i].0 == k {
                let ghost cur = self.fields@;
                let _ = self.fields.remove(i);
                self.fields.insert(i, (k, v));
                proof {
                    let i_ = i as int;
                    assert(self.fields@ =~= cur.update(i_, (k, v)));
                    assert(self.fields@[i_].0@ == k@);
                    Self::lemma_keyed_update(*old(self), *self, i_, k@, v);
                    assert(old(self).has_key(k@)) by {
                        assert(old(self).keys()[i_] == k@);
                    }
                }
                return ;
            }
            i += 1;
        }
        proof {
            assert(!old(self).has_key(k@)) by {
                if old(self).has_key(k@) {
                    let j = choose|j: int|
                        0 <= j < old(self).fields@.len() && old(self).fields@[j].0@ == k@;
                    assert(old(self).keys()[j] == k@);
                }
            }
        }
        let ghost cur = self.fields@;
        self.fields.push((k, v));
        proof {
            let n = cur.len() as int;
            assert(self.fields@[n] == (k, v));
            assert(forall|j: int| 0 <= j < n ==> self.fields@[j] == cur[j]);
            assert(final(self).wf()) by {
                assert forall|a: int, b: int|
                    0 <= a < b < self.fields@.len()
                    implies self.fields@[a].0@ != self.fields@[b].0@ by {
                    if b == n {
                        assert(old(self).keys()[a] == self.fields@[a].0@);
                        if self.fields@[a].0@ == k@ {
                            assert(old(self).has_key(k@));
                        }
                    }
                }
            }
            assert(final(self).has_key(k@) && final(self).val(k@) == v) by {
                assert(self.keys()[n] == k@);
                Self::lemma_key_at(*self, n);
            }
            assert forall|q: Seq<char>|
                final(self).has_key(q) == (old(self).has_key(q) || q == k@) by {
                if old(self).has_key(q) {
                    let j = choose|j: int| 0 <= j < n && old(self).keys()[j] == q;
                    assert(self.keys()[j] == q);
                }
                if self.has_key(q) && q != k@ {
                    let j = choose|j: int| 0 <= j < self.keys().len() && self.keys()[j] == q;
                    assert(j != n);
                    assert(old(self).keys()[j] == q);
                }
            }
            assert forall|q: Seq<char>|
                q != k@ && old(self).has_key(q) implies final(self).val(q) == old(self).val(
                q,
            ) by {
                let j = choose|j: int| 0 <= j < n && old(self).fields@[j].0@ == q;
                Self::lemma_key_at(*old(self), j);
                Self::lemma_key_at(*self, j);
            }
        }
    }

    /// In a well-formed document the field seen at `i` is the field its key
    /// finds.
    pub proof fn lemma_key_at(d: Self, i: int)
        requires
            d.wf(),
            0 <= i < d.fields@.len(),
        ensures
            d.has_key(d.fields@[i].0@),
            d.key_idx(d.fields@[i].0@) == i,
            d.val(d.fields@[i].0@) == d.fields@[i].1,
    {
        assert(d.keys()[i] == d.fields@[i].0@);
        let j = d.key_idx(d.fields@[i].0@);
        if j != i {
            if j < i {
                assert(d.fields@[j].0@ != d.fields@[i].0@);
            } else {
                assert(d.fields@[i].0@ != d.fields@[j].0@);
            }
        }
    }

    /// Overwriting the field at `i` in place, key kept.
    proof fn lemma_keyed_update(pre: Self, post: Self, i: int, k: Seq<char>, v: Value)
        requires
            pre.wf(),
            0 <= i < pre.fields@.len(),
            pre.fields@[i].0@ == k,
            post.fields@ == pre.fields@.update(i, (post.fields@[i].0, v)),
            post.fields@[i].0@ == k,
            post.fields@[i].1 == v,
        ensures
            post.wf(),
            post.has_key(k),
            post.val(k) == v,
            forall|q: Seq<char>| post.has_key(q) == (pre.has_key(q) || q == k),
            forall|q: Seq<char>| q != k && pre.has_key(q) ==> post.val(q) == pre.val(q),
            post.fields@.len() == pre.fields@.len(),
    {
        assert(forall|j: int|
            0 <= j < post.fields@.len() && j != i ==> post.fields@[j] == pre.fields@[j]);
        assert(post.wf()) by {
            assert forall|a: int, b: int|
                0 <= a < b < post.fields@.len()
                implies post.fields@[a].0@ != post.fields@[b].0@ by {
                assert(post.fields@[a].0@ == pre.fields@[a].0@);
                assert(post.fields@[b].0@ == pre.fields@[b].0@);
            }
        }
        Self::lemma_key_at(post, i);
        assert forall|q: Seq<char>| post.has_key(q) == (pre.has_key(q) || q == k) by {
            if pre.has_key(q) {
                let j = choose|j: int| 0 <= j < pre.keys().len() && pre.keys()[j] == q;
                assert(post.keys()[j] == q);
            }
            if post.has_key(q) && q != k {
                let j = choose|j: int| 0 <= j < post.keys().len() && post.keys()[j] == q;
                assert(j != i);
                assert(pre.keys()[j] == q);
            }
        }
        assert forall|q: Seq<char>| q != k && pre.has_key(q) implies post.val(q) == pre.val(
            q,
        ) by {
            let j = choose|j: int| 0 <= j < pre.fields@.len() && pre.fields@[j].0@ == q;
            assert(j != i);
            Self::lemma_key_at(pre, j);
            Self::lemma_key_at(post, j);
        }
    }
}

/// The composable partial-update descriptor: six independent operation
/// groups.  Within one group the last write for a given field wins; the
/// groups do not watch each other for conflicts — that is the caller's
/// responsibility.
pub struct Update {
    pub set: Doc,
    pub add_to_set: Doc,
    pub pull: Doc,
    pub push: Doc,
    pub pop: Doc,
    pub inc: Doc,
}

impl Update {
    pub open spec fn wf(self) -> bool {
        &&& self.set.wf()
        &&& self.add_to_set.wf()
        &&& self.pull.wf()
        &&& self.push.wf()
        &&& self.pop.wf()
        &&& self.inc.wf()
    }

    pub fn new() -> (r: Self)
        ensures
            r.wf(),
            r.set.fields@.len() == 0,
            r.add_to_set.fields@.len() == 0,
            r.pull.fields@.len() == 0,
            r.push.fields@.len() == 0,
            r.pop.fields@.len() == 0,
            r.inc.fields@.len() == 0,
    {
        Update {
            set: Doc::new(),
            add_to_set: Doc::new(),
            pull: Doc::new(),
            push: Doc::new(),
            pop: Doc::new(),
            inc: Doc::new(),
        }
    }

    /// Set a field to a value.
    pub fn set_field(&mut self, k: String, v: Value)
        requires
            old(self).wf(),
        ensures
            final(self).wf(),
            final(self).set.has_key(k@) && final(self).set.val(k@) == v,
            forall|q: Seq<char>|
                final(self).set.has_key(q) == (old(self).set.has_key(q) || q == k@),
            forall|q: Seq<char>|
                q != k@ && old(self).set.has_key(q) ==> final(self).set.val(q) == old(
                    self,
                ).set.val(q),
            final(self).add_to_set == old(self).add_to_set,
            final(self).pull == old(self).pull,
            final(self).push == old(self).push,
            final(self).pop == old(self).pop,
            final(self).inc == old(self).inc,
    {
        self.set.put(k, v);
    }

    /// Add a value to a set-valued field, without repeating it.
    pub fn add_to_set_field(&mut self, k: String, v: Value)
        requires
            old(self).wf(),
        ensures
            final(self).wf(),
            final(self).add_to_set.has_key(k@) && final(self).add_to_set.val(k@) == v,
            forall|q: Seq<char>|
                final(self).add_to_set.has_key(q) == (old(self).add_to_set.has_key(q) || q == k@),
            forall|q: Seq<char>|
                q != k@ && old(self).add_to_set.has_key(q) ==> final(self).add_to_set.val(q)
                    == old(self).add_to_set.val(q),
            final(self).set == old(self).set,
            final(self).pull == old(self).pull,
            final(self).push == old(self).push,
            final(self).pop == old(self).pop,
            final(self).inc == old(self).inc,
    {
        self.add_to_set.put(k, v);
    }

    /// Remove every element matching a value from a list-valued field.
    pub fn pull_field(&mut self, k: String, v: Value)
        requires
            old(self).wf(),
        ensures
            final(self).wf(),
            final(self).pull.has_key(k@) && final(self).pull.val(k@) == v,
            forall|q: Seq<char>|
                final(self).pull.has_key(q) == (old(self).pull.has_key(q) || q == k@),
            final(self).set == old(self).set,
            final(self).add_to_set == old(self).add_to_set,
            final(self).push == old(self).push,
            final(self).pop == old(self).pop,
            final(self).inc == old(self).inc,
    {
        self.pull.put(k, v);
    }

    /// Append a value to a list-valued field.
    pub fn push_field(&mut self, k: String, v: Value)
        requires
            old(self).wf(),
        ensures
            final(self).wf(),
            final(self).push.has_key(k@) && final(self).push.val(k@) == v,
            forall|q: Seq<char>|
                final(self).push.has_key(q) == (old(self).push.has_key(q) || q == k@),
            final(self).set == old(self).set,
            final(self).add_to_set == old(self).add_to_set,
            final(self).pull == old(self).pull,
            final(self).pop == old(self).pop,
            final(self).inc == old(self).inc,
    {
        self.push.put(k, v);
    }

    /// Remove the tail of a list-valued field.
    pub fn pop_field(&mut self, k: String)
        requires
            old(self).wf(),
        ensures
            final(self).wf(),
            final(self).pop.has_key(k@),
            forall|q: Seq<char>|
                final(self).pop.has_key(q) == (old(self).pop.has_key(q) || q == k@),
            final(self).set == old(self).set,
            final(self).add_to_set == old(self).add_to_set,
            final(self).pull == old(self).pull,
            final(self).push == old(self).push,
            final(self).inc == old(self).inc,
    {
        self.pop.put(k, Value::Num(1));
    }

    /// Add to a numeric field.
    pub fn inc_field(&mut self, k: String, by: i64)
        requires
            old(self).wf(),
        ensures
            final(self).wf(),
            final(self).inc.has_key(k@) && final(self).inc.val(k@) == Value::Num(by),
            forall|q: Seq<char>|
                final(self).inc.has_key(q) == (old(self).inc.has_key(q) || q == k@),
            final(self).set == old(self).set,
            final(self).add_to_set == old(self).add_to_set,
            final(self).pull == old(self).pull,
            final(self).push == old(self).push,
            final(self).pop == old(self).pop,
    {
        self.inc.put(k, Value::Num(by));
    }

    /// Finalize into the update document the store consumes: the six groups
    /// under their operator names, in a fixed order, and always, last, the
    /// stamp that sets `updated_at` to the update time.
    pub fn into_update_document(self) -> (r: Vec<(String, Doc)>)
        ensures
            r@.len() == 7,
            r@[0].0@ == "$set"@ && r@[0].1 == self.set,
            r@[1].0@ == "$addToSet"@ && r@[1].1 == self.add_to_set,
            r@[2].0@ == "$pull"@ && r@[2].1 == self.pull,
            r@[3].0@ == "$push"@ && r@[3].1 == self.push,
            r@[4].0@ == "$pop"@ && r@[4].1 == self.pop,
            r@[5].0@ == "$inc"@ && r@[5].1 == self.inc,
            r@[6].0@ == "$updatedDate"@,
            r@[6].1.keys() == seq!["updated_at"@],
            r@[6].1.val("updated_at"@) == Value::Flag(true),
    {
        let Update { set, add_to_set, pull, push, pop, inc } = self;
        let mut stamp = Doc::new();
        stamp.put(String::from_str("updated_at"), Value::Flag(true));
        proof {
            assert(stamp.keys() =~= seq!["updated_at"@]);
        }
        let mut r: Vec<(String, Doc)> = Vec::new();
        r.push((String::from_str("$set"), set));
        r.push((String::from_str("$addToSet"), add_to_set));
        r.push((String::from_str("$pull"), pull));
        r.push((String::from_str("$push"), push));
        r.push((String::from_str("$pop"), pop));
        r.push((String::from_str("$inc"), inc));
        r.push((String::from_str("$updatedDate"), stamp));
        r
    }
}

} // verus!
