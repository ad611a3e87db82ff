//! The in-memory store: an ordered list of text items.
//!
//! A [`Store`] holds the authoritative todo list as an ordered sequence of
//! strings, duplicates permitted. Its view is the sequence of the items'
//! character sequences. Every piece of submitted text has literal `"`
//! characters removed (see [`strip_quotes_spec`]) before it is appended or
//! used as a removal key.

use vstd::prelude::*;

verus! {

/// The sequence `s` with every literal `"` character removed, keeping the
/// order of the remaining characters.
pub open spec fn strip_quotes_spec(s: Seq<char>) -> Seq<char>
    decreases s.len(),
{
    if s.len() == 0 {
        Seq::empty()
    } else if s.last() == '"' {
        strip_quotes_spec(s.drop_last())
    } else {
        strip_quotes_spec(s.drop_last()).push(s.last())
    }
}

/// Stripping commutes with appending one character: a `"` vanishes, any
/// other character survives.
pub proof fn lemma_strip_quotes_push(s: Seq<char>, c: char)
    ensures
        strip_quotes_spec(s.push(c)) == if c == '"' {
            strip_quotes_spec(s)
        } else {
            strip_quotes_spec(s).push(c)
        },
{
    assert(s.push(c).drop_last() =~= s);
    assert(s.push(c).last() == c);
}

/// Stripping never leaves a `"` behind: no character of the result is a
/// literal double quote.
pub proof fn lemma_strip_quotes_no_quote(s: Seq<char>)
    ensures
        forall|i: int| 0 <= i < strip_quotes_spec(s).len() ==> strip_quotes_spec(s)[i] != '"',
    decreases s.len(),
{
    if s.len() > 0 {
        lemma_strip_quotes_no_quote(s.drop_last());
        let t = strip_quotes_spec(s.drop_last());
        assert forall|i: int|
            0 <= i < strip_quotes_spec(s).len() implies strip_quotes_spec(s)[i] != '"' by {
            if s.last() == '"' || i < t.len() {
                assert(strip_quotes_spec(s)[i] == t[i]);
            } else {
                assert(strip_quotes_spec(s)[i] == s.last());
            }
        }
    }
}

/// Text that contains no `"` is stored exactly as submitted.
pub proof fn lemma_strip_quotes_id(s: Seq<char>)
    requires
        forall|i: int| 0 <= i < s.len() ==> s[i] != '"',
    ensures
        strip_quotes_spec(s) == s,
    decreases s.len(),
{
    if s.len() > 0 {
        assert(s.last() == s[s.len() - 1]);
        lemma_strip_quotes_id(s.drop_last());
        assert(strip_quotes_spec(s) =~= s);
    } else {
        assert(strip_quotes_spec(s) =~= s);
    }
}

/// Relies on String::push, which appends the given character to the end of
/// the string.
#[verifier::external_body]
pub(crate) fn push_char(s: &mut String, c: char)
    ensures
        final(s)@ == old(s)@.push(c),
{
    s.push(c)
}

/// Returns `text` with every literal `"` character removed.
pub fn strip_quotes(text: &str) -> (r: String)
    ensures
        r@ == strip_quotes_spec(text@),
{
    let n = text.unicode_len();
    let mut out = String::new();
    let mut i: usize = 0;
    while i < n
        invariant
            n == text@.len(),
            i <= n,
            out@ == strip_quotes_spec(text@.subrange(0, i as int)),
        decreases n - i,
    {
        let c = text.get_char(i);
        if c != '"' {
            push_char(&mut out, c);
        }
        proof {
            let prefix = text@.subrange(0, i as int);
            assert(text@.subrange(0, i + 1) =~= prefix.push(text@[i as int]));
            lemma_strip_quotes_push(prefix, text@[i as int]);
        }
        i = i + 1;
    }
    proof {
        assert(text@.subrange(0, n as int) =~= text@);
    }
    out
}

/// The one way a store operation can fail: a removal key that matches no
/// item in the list.
#[derive(Clone, Copy, Debug, PartialEq, Eq, Structural)]
pub enum StoreError {
    NotFound,
}

/// The authoritative todo list: an ordered sequence of text items,
/// duplicates permitted, insertion order preserved.
pub struct Store {
    items: Vec<String>,
}

impl View for Store {
    type V = Seq<Seq<char>>;

    closed spec fn view(&self) -> Seq<Seq<char>> {
        self.items.deep_view()
    }
}

impl Store {
    /// An empty list.
    pub fn new() -> (r: Store)
        ensures
            r@ == Seq::<Seq<char>>::empty(),
    {
        let r = Store { items: Vec::new() };
        proof {
            assert(r@ =~= Seq::<Seq<char>>::empty());
        }
        r
    }

    /// A list seeded with the given items, stored exactly as given.
    pub fn from_items(items: Vec<String>) -> (r: Store)
        ensures
            r@ == items.deep_view(),
    {
        Store { items }
    }

    /// A snapshot copy of the current list.
    pub fn read_all(&self) -> (r: Vec<String>)
        ensures
            r.deep_view() == self@,
    {
        let mut out: Vec<String> = Vec::new();
        let mut i: usize = 0;
        while i < self.items.len()
            invariant
                i <= self.items.len(),
                out.deep_view() == self@.subrange(0, i as int),
            decreases self.items.len() - i,
        {
            let ghost pre = out.deep_view();
            let c = self.items[i].clone();
            out.push(c);
            proof {
                assert(out.deep_view() =~= pre.push(self@[i as int]));
                assert(self@.subrange(0, i + 1) =~= pre.push(self@[i as int]));
            }
            i = i + 1;
        }
        proof {
            assert(self@.subrange(0, self.items@.len() as int) =~= self@);
        }
        out
    }

    /// Appends `text`, with its `"` characters removed, to the end of the
    /// list; no constraint on emptiness or duplicates. Returns the full
    /// resulting list.
    pub fn append(&mut self, text: &str) -> (r: Vec<String>)
        ensures
            final(self)@ == old(self)@.push(strip_quotes_spec(text@)),
            r.deep_view() == final(self)@,
    {
        let value = strip_quotes(text);
        self.items.push(value);
        proof {
            assert(self@ =~= old(self)@.push(strip_quotes_spec(text@)));
        }
        self.read_all()
    }

    /// Empties the list and returns the (empty) result.
    pub fn clear(&mut self) -> (r: Vec<String>)
        ensures
            final(self)@ == Seq::<Seq<char>>::empty(),
            r.deep_view() == final(self)@,
            r@.len() == 0,
    {
        self.items.clear();
        proof {
            assert(self@ =~= Seq::<Seq<char>>::empty());
        }
        self.read_all()
    }

    /// Removes the first item that exactly equals `text` after quote
    /// stripping. On success returns the full resulting list; if no item
    /// matches, the list is unchanged and `StoreError::NotFound` comes back.
    pub fn remove_first(&mut self, text: &str) -> (r: Result<Vec<String>, StoreError>)
        ensures
            final(self)@ == old(self)@.remove_value(strip_quotes_spec(text@)),
            r is Ok <==> old(self)@.contains(strip_quotes_spec(text@)),
            r matches Ok(items) ==> items.deep_view() == final(self)@,
            r is Err ==> final(self)@ == old(self)@ && r == Err::<Vec<String>, StoreError>(
                StoreError::NotFound,
            ),
    {
        let key = strip_quotes(text);
        let ghost k = strip_quotes_spec(text@);
        let n = self.items.len();
        let mut i: usize = 0;
        while i < n
            invariant
                self.items@ == old(self).items@,
                n == self.items.len(),
                i <= n,
                key@ == k,
                k == strip_quotes_spec(text@),
                forall|j: int| 0 <= j < i ==> old(self)@[j] != k,
            decreases n - i,
        {
            if self.items[i] == key {
                proof {
                    assert(old(self)@[i as int] == k);
                    assert(old(self)@.contains(k));
                    old(self)@.index_of_first_ensures(k);
                    let fi = old(self)@.index_of_first(k).unwrap();
                    assert(fi == i as int);
                    assert(old(self)@.remove_value(k) == old(self)@.remove(i as int));
                }
                self.items.remove(i);
                proof {
                    old(self).items@.remove_ensures(i as int);
                    old(self)@.remove_ensures(i as int);
                    assert(self@ =~= old(self)@.remove(i as int));
                }
                return Ok(self.read_all());
            }
            i = i + 1;
        }
        proof {
            assert(!old(self)@.contains(k));
            old(self)@.index_of_first_ensures(k);
            assert(self@ =~= old(self)@);
        }
        Err(StoreError::NotFound)
    }
}

/// How many items of `v` equal `x`.
pub open spec fn count_of(v: Seq<Seq<char>>, x: Seq<char>) -> nat {
    v.to_multiset().count(x)
}

/// The list that a store whose list is `v` holds after appending each text
/// of `texts`, in order.
pub open spec fn append_all(v: Seq<Seq<char>>, texts: Seq<Seq<char>>) -> Seq<Seq<char>>
    decreases texts.len(),
{
    if texts.len() == 0 {
        v
    } else {
        append_all(v.push(strip_quotes_spec(texts.first())), texts.drop_first())
    }
}

/// Append-order invariant: after any sequence of appends, the list holds
/// the prior items followed by the appended texts (quote-stripped), in
/// exactly the order they were appended.
pub proof fn lemma_append_order(v: Seq<Seq<char>>, texts: Seq<Seq<char>>)
    ensures
        append_all(v, texts) == v + Seq::new(texts.len(), (|i: int| strip_quotes_spec(texts[i]))),
    decreases texts.len(),
{
    let stripped = Seq::new(texts.len(), (|i: int| strip_quotes_spec(texts[i])));
    if texts.len() == 0 {
        assert(append_all(v, texts) =~= v + stripped);
    } else {
        let first = strip_quotes_spec(texts.first());
        let rest = texts.drop_first();
        lemma_append_order(v.push(first), rest);
        let stripped_rest = Seq::new(rest.len(), (|i: int| strip_quotes_spec(rest[i])));
        assert(append_all(v, texts) == v.push(first) + stripped_rest);
        assert(v.push(first) + stripped_rest =~= v + stripped);
    }
}

/// What removing the first occurrence of `x` does to occurrence counts:
/// one occurrence of `x` goes away if any was there, and no other value is
/// touched.
pub proof fn lemma_remove_value_count(v: Seq<Seq<char>>, x: Seq<char>)
    ensures
        v.contains(x) ==> count_of(v.remove_value(x), x) == count_of(v, x) - 1,
        !v.contains(x) ==> v.remove_value(x) == v,
        forall|y: Seq<char>|
            y != x ==> count_of(v.remove_value(x), y) == count_of(v, y),
{
    broadcast use vstd::seq_lib::group_to_multiset_ensures;
    broadcast use vstd::multiset::group_multiset_axioms;

    v.index_of_first_ensures(x);
    if v.contains(x) {
        let i = v.index_of_first(x).unwrap();
        assert(v.remove(i).to_multiset() =~= v.to_multiset().remove(v[i]));
    }
}

/// Removing a value that occurred exactly once leaves a list that does not
/// contain it at all.
pub proof fn lemma_remove_single_occurrence(v: Seq<Seq<char>>, x: Seq<char>)
    requires
        count_of(v, x) == 1,
    ensures
        !v.remove_value(x).contains(x),
{
    broadcast use vstd::seq_lib::group_to_multiset_ensures;

    lemma_remove_value_count(v, x);
}

/// Removing a value that occurred exactly twice removes one occurrence and
/// leaves the other in place.
pub proof fn lemma_remove_double_occurrence(v: Seq<Seq<char>>, x: Seq<char>)
    requires
        count_of(v, x) == 2,
    ensures
        count_of(v.remove_value(x), x) == 1,
        v.remove_value(x).contains(x),
{
    broadcast use vstd::seq_lib::group_to_multiset_ensures;

    lemma_remove_value_count(v, x);
}

/// No lost updates: appending pairwise-distinct values, none already
/// present, puts each of them in the final list exactly once. The store's
/// lock makes each append atomic, so a concurrent execution of N appends
/// is some ordering of them; `texts` here is any such ordering, and the
/// conclusion holds for every one.
pub proof fn lemma_unique_appends(v: Seq<Seq<char>>, texts: Seq<Seq<char>>)
    requires
        forall|i: int| 0 <= i < texts.len() ==> !v.contains(strip_quotes_spec(texts[i])),
        forall|i: int, j: int|
            0 <= i < j < texts.len() ==> strip_quotes_spec(texts[i]) != strip_quotes_spec(
                texts[j],
            ),
    ensures
        forall|i: int|
            0 <= i < texts.len() ==> count_of(append_all(v, texts), strip_quotes_spec(texts[i]))
                == 1,
{
    broadcast use vstd::seq_lib::group_to_multiset_ensures;
    broadcast use vstd::multiset::group_multiset_axioms;
    broadcast use vstd::seq_lib::lemma_multiset_commutative;

    let stripped = Seq::new(texts.len(), (|i: int| strip_quotes_spec(texts[i])));
    lemma_append_order(v, texts);
    assert(stripped.no_duplicates());
    stripped.lemma_multiset_has_no_duplicates();
    assert forall|i: int|
        0 <= i < texts.len() implies count_of(append_all(v, texts), strip_quotes_spec(texts[i]))
        == 1 by {
        let x = strip_quotes_spec(texts[i]);
        assert(stripped[i] == x);
        assert(stripped.contains(x));
        assert(stripped.to_multiset().count(x) == 1);
        assert(!v.contains(x));
        assert(v.to_multiset().count(x) == 0);
        assert((v + stripped).to_multiset().count(x) == 1);
    }
}

} // verus!
