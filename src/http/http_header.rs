//! HTTP headers: a map from names to values, written out one `name: value` line each.

use vstd::prelude::*;

verus! {

/// The index of the first entry at or after `i` whose name is `k`.
pub open spec fn key_index_from(e: Seq<(Seq<char>, Seq<char>)>, k: Seq<char>, i: int) -> Option<int>
    decreases e.len() - i,
{
    if i < 0 || i >= e.len() {
        None
    } else if e[i].0 == k {
        Some(i)
    } else {
        key_index_from(e, k, i + 1)
    }
}

/// The index of the entry whose name is `k`, if there is one.
pub open spec fn key_index(e: Seq<(Seq<char>, Seq<char>)>, k: Seq<char>) -> Option<int> {
    key_index_from(e, k, 0)
}

pub proof fn lemma_key_index_from(e: Seq<(Seq<char>, Seq<char>)>, k: Seq<char>, i: int)
    requires
        0 <= i,
    ensures
        match key_index_from(e, k, i) {
            Some(j) => i <= j < e.len() && e[j].0 == k && forall|m: int| i <= m < j ==> e[m].0 != k,
            None => forall|m: int| i <= m < e.len() ==> e[m].0 != k,
        },
    decreases e.len() - i,
{
    if i < e.len() && e[i].0 != k {
        lemma_key_index_from(e, k, i + 1);
    }
}

/// The text of the headers: `name: value\r\n` for each entry, in order.
pub open spec fn headers_text(e: Seq<(Seq<char>, Seq<char>)>) -> Seq<char>
    decreases e.len(),
{
    if e.len() == 0 {
        Seq::empty()
    } else {
        headers_text(e.drop_last()) + e.last().0 + ": "@ + e.last().1 + "\r\n"@
    }
}

/// Whether no name appears twice among the entries.
pub open spec fn names_unique(e: Seq<(Seq<char>, Seq<char>)>) -> bool {
    forall|i: int, j: int| 0 <= i < j < e.len() ==> (#[trigger] e[i]).0 != (#[trigger] e[j]).0
}

/// HTTP headers. Each name appears once; entries keep the order in which their names
/// were first added.
#[derive(Debug)]
pub struct HttpHeaders {
    inner: Vec<(String, String)>,
}

impl HttpHeaders {
    /// The entries, as (name, value) pairs in order.
    pub closed spec fn entries(&self) -> Seq<(Seq<char>, Seq<char>)> {
        self.inner@.map_values(|p: (String, String)| (p.0@, p.1@))
    }

    pub fn new() -> (r: Self)
        ensures
            r.entries() == Seq::<(Seq<char>, Seq<char>)>::empty(),
            names_unique(r.entries()),
    {
        let r = HttpHeaders { inner: Vec::new() };
        assert(r.entries() =~= Seq::<(Seq<char>, Seq<char>)>::empty());
        r
    }

    /// Sets the value of header `k` to `v`, replacing the value it had, if any.
    pub fn add(&mut self, k: &str, v: &str)
        ensures
            match key_index(old(self).entries(), k@) {
                Some(i) => final(self).entries() == old(self).entries().update(i, (k@, v@)),
                None => final(self).entries() == old(self).entries().push((k@, v@)),
            },
            names_unique(old(self).entries()) ==> names_unique(final(self).entries()),
    {
        proof {
            lemma_key_index_from(self.entries(), k@, 0);
        }
        let key = k.to_string();
        let value = v.to_string();
        let ghost e = self.entries();
        let mut i: usize = 0;
        while i < self.inner.len()
            invariant
                e == self.entries(),
                e == old(self).entries(),
                e.len() == self.inner@.len(),
                key@ == k@,
                value@ == v@,
                i <= self.inner@.len(),
                key_index(e, k@) == key_index_from(e, k@, i as int),
            decreases self.inner@.len() - i,
        {
            if self.inner[i].0 == key {
                assert(e[i as int].0 == k@);
                let _ = self.inner.remove(i);
                self.inner.insert(i, (key, value));
                assert(self.entries() =~= e.update(i as int, (k@, v@)));
                return;
            }
            i = i + 1;
        }
        self.inner.push((key, value));
        assert(self.entries() =~= e.push((k@, v@)));
    }

    /// The value of header `k`, if it is set.
    pub fn get(&self, k: &str) -> (r: Option<&String>)
        ensures
            match key_index(self.entries(), k@) {
                Some(i) => r is Some && r->0@ == self.entries()[i].1,
                None => r is None,
            },
    {
        let key = k.to_string();
        let mut i: usize = 0;
        while i < self.inner.len()
            invariant
                key@ == k@,
                i <= self.inner@.len(),
                key_index(self.entries(), k@) == key_index_from(self.entries(), k@, i as int),
            decreases self.inner@.len() - i,
        {
            if self.inner[i].0 == key {
                return Some(&self.inner[i].1);
            }
            i = i + 1;
        }
        None
    }

    /// How many headers are set.
    pub fn len(&self) -> (r: usize)
        ensures
            r == self.entries().len(),
    {
        self.inner.len()
    }

    /// The headers as text, as they are sent.
    pub fn to_text(&self) -> (r: String)
        ensures
            r@ == headers_text(self.entries()),
    {
        let mut r = String::new();
        let mut i: usize = 0;
        while i < self.inner.len()
            invariant
                i <= self.inner@.len(),
                r@ == headers_text(self.entries().take(i as int)),
            decreases self.inner@.len() - i,
        {
            r.append(self.inner[i].0.as_str());
            r.append(": ");
            r.append(self.inner[i].1.as_str());
            r.append("\r\n");
            assert(self.entries().take(i + 1).drop_last() =~= self.entries().take(i as int));
            i = i + 1;
        }
        assert(self.entries().take(i as int) =~= self.entries());
        r
    }
}

} // verus!
