//! The header mapping of a message: each key has one value, and the last
//! write to a key wins. Keys are compared as exact strings. Entries keep the
//! order in which their keys first came.

use vstd::prelude::*;
use vstd::string::*;

verus! {

/// The mathematical content of a header mapping: its entries in order.
pub type Headers = Seq<(Seq<char>, Seq<char>)>;

/// The position of `key` among the entries, or their number where it is absent.
pub open spec fn spec_position(headers: Headers, key: Seq<char>) -> int
    decreases headers.len(),
{
    if headers.len() == 0 {
        0
    } else if headers[0].0 == key {
        0
    } else {
        1 + spec_position(headers.drop_first(), key)
    }
}

/// The value of `key`, if it has one.
pub open spec fn spec_get(headers: Headers, key: Seq<char>) -> Option<Seq<char>> {
    let i = spec_position(headers, key);
    if i < headers.len() {
        Some(headers[i].1)
    } else {
        None
    }
}

/// The entries after `key` has been given `value`: a present key keeps its
/// place, a new key goes to the end.
pub open spec fn spec_insert(headers: Headers, key: Seq<char>, value: Seq<char>) -> Headers {
    let i = spec_position(headers, key);
    if i < headers.len() {
        headers.update(i, (key, value))
    } else {
        headers.push((key, value))
    }
}

/// The entries without `key`.
pub open spec fn spec_remove(headers: Headers, key: Seq<char>) -> Headers {
    let i = spec_position(headers, key);
    if i < headers.len() {
        headers.remove(i)
    } else {
        headers
    }
}

/// No key occurs twice.
pub open spec fn spec_distinct(headers: Headers) -> bool {
    forall|i: int, j: int|
        0 <= i < j < headers.len() ==> (#[trigger] headers[i]).0 != (#[trigger] headers[j]).0
}

/// The mapping from key to value that the entries stand for.
pub open spec fn spec_map(headers: Headers) -> Map<Seq<char>, Seq<char>> {
    Map::new(
        |key: Seq<char>| spec_get(headers, key) is Some,
        |key: Seq<char>| spec_get(headers, key)->Some_0,
    )
}

/// The entries as header lines: `key: value` and a line end for each.
pub open spec fn spec_render(headers: Headers) -> Seq<char>
    decreases headers.len(),
{
    if headers.len() == 0 {
        Seq::empty()
    } else {
        spec_render(headers.drop_last()) + headers.last().0 + ": "@ + headers.last().1 + "\r\n"@
    }
}

/// What `spec_position` returns: the first index that holds the key.
pub proof fn lemma_position(headers: Headers, key: Seq<char>)
    ensures
        0 <= spec_position(headers, key) <= headers.len(),
        spec_position(headers, key) < headers.len() ==> headers[spec_position(headers, key)].0
            == key,
        forall|i: int| 0 <= i < spec_position(headers, key) ==> (#[trigger] headers[i]).0 != key,
    decreases headers.len(),
{
    if headers.len() > 0 && headers[0].0 != key {
        let rest = headers.drop_first();
        lemma_position(rest, key);
        assert forall|i: int| 0 <= i < spec_position(headers, key) implies (#[trigger] headers[i]).0
            != key by {
            if i > 0 {
                assert(rest[i - 1] == headers[i]);
            }
        }
    }
}

/// An index that holds the key, with no earlier one that does, is its position.
pub proof fn lemma_position_is(headers: Headers, key: Seq<char>, at: int)
    requires
        0 <= at <= headers.len(),
        at < headers.len() ==> headers[at].0 == key,
        forall|i: int| 0 <= i < at ==> (#[trigger] headers[i]).0 != key,
    ensures
        spec_position(headers, key) == at,
{
    lemma_position(headers, key);
    let p = spec_position(headers, key);
    if p < at {
        assert(headers[p].0 != key);
    }
}

/// Writing a key changes what that key maps to and nothing else, and keeps
/// the keys distinct.
pub proof fn lemma_insert(headers: Headers, key: Seq<char>, value: Seq<char>)
    ensures
        spec_map(spec_insert(headers, key, value)) == spec_map(headers).insert(key, value),
        spec_distinct(headers) ==> spec_distinct(spec_insert(headers, key, value)),
{
    let after = spec_insert(headers, key, value);
    let at = spec_position(headers, key);
    lemma_position(headers, key);
    assert forall|other: Seq<char>| #[trigger]
        spec_get(after, other) == (if other == key {
            Some(value)
        } else {
            spec_get(headers, other)
        }) by {
        let p = spec_position(headers, other);
        lemma_position(headers, other);
        if other == key {
            lemma_position_is(after, other, at);
        } else if p < headers.len() {
            lemma_position_is(after, other, p);
        } else {
            lemma_position_is(after, other, after.len() as int);
        }
    }
    assert(spec_map(after) =~= spec_map(headers).insert(key, value));
}

/// Removing a key takes that key out of the mapping and nothing else, where
/// the keys are distinct, and keeps them so.
pub proof fn lemma_remove(headers: Headers, key: Seq<char>)
    requires
        spec_distinct(headers),
    ensures
        spec_map(spec_remove(headers, key)) == spec_map(headers).remove(key),
        spec_distinct(spec_remove(headers, key)),
{
    let after = spec_remove(headers, key);
    let at = spec_position(headers, key);
    lemma_position(headers, key);
    assert forall|other: Seq<char>| #[trigger]
        spec_get(after, other) == (if other == key {
            None
        } else {
            spec_get(headers, other)
        }) by {
        let p = spec_position(headers, other);
        lemma_position(headers, other);
        if other == key {
            assert forall|i: int| 0 <= i < after.len() implies (#[trigger] after[i]).0 != key by {
                if at < headers.len() {
                    if i < at {
                        assert(after[i] == headers[i]);
                    } else {
                        assert(after[i] == headers[i + 1]);
                    }
                }
            }
            lemma_position_is(after, other, after.len() as int);
        } else if p < headers.len() {
            if p < at {
                lemma_position_is(after, other, p);
            } else {
                lemma_position_is(after, other, p - 1);
            }
        } else {
            lemma_position_is(after, other, after.len() as int);
        }
    }
    assert(spec_map(after) =~= spec_map(headers).remove(key));
}

/// The header mapping of a request or a response.
#[derive(Debug)]
pub struct HeaderMap {
    entries: Vec<(String, String)>,
}

impl View for HeaderMap {
    type V = Headers;

    closed spec fn view(&self) -> Headers {
        entry_views(self.entries@)
    }
}

/// The views of the stored entries, in order.
spec fn entry_views(entries: Seq<(String, String)>) -> Headers {
    entries.map_values(|e: (String, String)| (e.0@, e.1@))
}

impl Clone for HeaderMap {
    fn clone(&self) -> (r: Self)
        ensures
            r@ == self@,
    {
        proof {
            use_type_invariant(self);
        }
        let mut entries: Vec<(String, String)> = Vec::with_capacity(self.entries.len());
        let mut i: usize = 0;
        while i < self.entries.len()
            invariant
                i <= self.entries@.len(),
                entry_views(entries@) == entry_views(self.entries@).take(i as int),
            decreases self.entries@.len() - i,
        {
            let e = &self.entries[i];
            let ghost before = entries@;
            let key = e.0.clone();
            let value = e.1.clone();
            entries.push((key, value));
            proof {
                assert(entry_views(before) == entry_views(self.entries@).take(i as int));
                assert(entry_views(entries@) =~= entry_views(before).push((key@, value@)));
                assert(entry_views(self.entries@)[i as int] == (key@, value@));
                assert(entry_views(entries@) =~= entry_views(self.entries@).take(i + 1));
            }
            i = i + 1;
        }
        proof {
            assert(entry_views(entries@) =~= entry_views(self.entries@));
        }
        HeaderMap { entries }
    }
}

impl Default for HeaderMap {
    fn default() -> (r: Self)
        ensures
            r@ == Seq::<(Seq<char>, Seq<char>)>::empty(),
    {
        HeaderMap::new()
    }
}

impl HeaderMap {
    #[verifier::type_invariant]
    spec fn keys_distinct(self) -> bool {
        spec_distinct(self@)
    }

    /// A mapping without entries.
    pub fn new() -> (r: Self)
        ensures
            r@ == Seq::<(Seq<char>, Seq<char>)>::empty(),
            spec_distinct(r@),
    {
        let entries: Vec<(String, String)> = Vec::new();
        proof {
            assert(entry_views(entries@) =~= Seq::<(Seq<char>, Seq<char>)>::empty());
        }
        HeaderMap { entries }
    }

    /// The number of entries.
    pub fn len(&self) -> (r: usize)
        ensures
            r == self@.len(),
            spec_distinct(self@),
    {
        proof {
            use_type_invariant(self);
        }
        self.entries.len()
    }

    /// The entry at position `i`: its key and its value.
    pub fn entry(&self, i: usize) -> (r: (&String, &String))
        requires
            i < self@.len(),
        ensures
            (r.0@, r.1@) == self@[i as int],
    {
        let e = &self.entries[i];
        (&e.0, &e.1)
    }

    /// The position of `key`, or the number of entries where it is absent.
    fn position(&self, key: &String) -> (r: usize)
        ensures
            r == spec_position(self@, key@),
            r <= self@.len(),
    {
        let mut i: usize = 0;
        while i < self.entries.len() && !(self.entries[i].0 == *key)
            invariant
                i <= self.entries@.len(),
                forall|k: int| 0 <= k < i ==> (#[trigger] self@[k]).0 != key@,
            decreases self.entries@.len() - i,
        {
            i = i + 1;
        }
        proof {
            lemma_position_is(self@, key@, i as int);
        }
        i
    }

    /// The entries as header lines, in order.
    pub fn render(&self) -> (r: String)
        ensures
            r@ == spec_render(self@),
    {
        let mut out = String::new();
        let mut i: usize = 0;
        proof {
            assert(self@.take(0) =~= Seq::<(Seq<char>, Seq<char>)>::empty());
        }
        while i < self.entries.len()
            invariant
                i <= self.entries@.len(),
                out@ == spec_render(self@.take(i as int)),
            decreases self.entries@.len() - i,
        {
            let e = &self.entries[i];
            proof {
                let next = self@.take(i + 1);
                assert(next.drop_last() =~= self@.take(i as int));
                assert(next.last() == (e.0@, e.1@));
            }
            out.append(e.0.as_str());
            out.append(": ");
            out.append(e.1.as_str());
            out.append("\r\n");
            i = i + 1;
        }
        proof {
            assert(self@.take(i as int) =~= self@);
        }
        out
    }

    /// The value of `key`, if it has one.
    pub fn get(&self, key: &str) -> (r: Option<&String>)
        ensures
            spec_get(self@, key@) == match r {
                Some(value) => Some(value@),
                None => None,
            },
    {
        let key = key.to_owned();
        let i = self.position(&key);
        if i < self.entries.len() {
            Some(&self.entries[i].1)
        } else {
            None
        }
    }

    /// Gives `key` the value `value`, in place of any it had.
    pub fn insert(&mut self, key: &str, value: &str)
        ensures
            final(self)@ == spec_insert(old(self)@, key@, value@),
            spec_distinct(final(self)@),
    {
        proof {
            use_type_invariant(&*self);
            lemma_insert(self@, key@, value@);
        }
        let key = key.to_owned();
        let value = value.to_owned();
        let i = self.position(&key);
        let mut entries: Vec<(String, String)> = Vec::new();
        proof {
            assert(entry_views(entries@) =~= Seq::<(Seq<char>, Seq<char>)>::empty());
        }
        core::mem::swap(&mut self.entries, &mut entries);
        if i < entries.len() {
            entries.set(i, (key, value));
        } else {
            entries.push((key, value));
        }
        proof {
            assert(entry_views(entries@) =~= spec_insert(old(self)@, key@, value@));
        }
        core::mem::swap(&mut self.entries, &mut entries);
    }

    /// Takes `key` and its value out.
    pub fn remove(&mut self, key: &str)
        ensures
            final(self)@ == spec_remove(old(self)@, key@),
            spec_distinct(final(self)@),
    {
        proof {
            use_type_invariant(&*self);
            lemma_remove(self@, key@);
        }
        let key = key.to_owned();
        let i = self.position(&key);
        let mut entries: Vec<(String, String)> = Vec::new();
        proof {
            assert(entry_views(entries@) =~= Seq::<(Seq<char>, Seq<char>)>::empty());
        }
        core::mem::swap(&mut self.entries, &mut entries);
        if i < entries.len() {
            entries.remove(i);
        }
        proof {
            assert(entry_views(entries@) =~= spec_remove(old(self)@, key@));
        }
        core::mem::swap(&mut self.entries, &mut entries);
    }
}

} // verus!
