//! Collections of named items that hold no name twice and keep their items
//! in the order of their names.

use crate::text::{
    chars_less, chars_of, lemma_text_less_asymmetric, lemma_text_less_irreflexive,
    lemma_text_less_total, lemma_text_less_transitive, same_chars, text_less,
};
use vstd::prelude::*;

verus! {

/// An item that is known by a name.
pub trait Named: Sized {
    /// The name of the item.
    spec fn name(&self) -> Seq<char>;

    /// The characters of the name.
    fn name_chars(&self) -> (r: Vec<char>)
        ensures
            r@ == self.name(),
    ;
}

/// A named item of which an equal copy can be made.
pub trait Duplicate: Named {
    /// A copy of the item.
    fn duplicate(&self) -> (r: Self)
        ensures
            r == *self,
    ;
}

impl Named for String {
    open spec fn name(&self) -> Seq<char> {
        self@
    }

    fn name_chars(&self) -> (r: Vec<char>) {
        chars_of(self.as_str())
    }
}

impl Duplicate for String {
    fn duplicate(&self) -> (r: Self) {
        self.clone()
    }
}

/// The items stand in the strict order of their names, so that no name
/// occurs twice.
pub open spec fn sorted_by_name<T: Named>(s: Seq<T>) -> bool {
    forall|i: int, j: int|
        0 <= i < j < s.len() ==> text_less((#[trigger] s[i]).name(), (#[trigger] s[j]).name())
}

/// Whether an item of `s` has the name `n`.
pub open spec fn has_name<T: Named>(s: Seq<T>, n: Seq<char>) -> bool {
    exists|i: int| 0 <= i < s.len() && (#[trigger] s[i]).name() == n
}

/// The number of items at the head of `s` whose names come before `n`.
pub open spec fn rank_of<T: Named>(s: Seq<T>, n: Seq<char>) -> int
    decreases s.len(),
{
    if s.len() == 0 || !text_less(s[0].name(), n) {
        0
    } else {
        1 + rank_of(s.drop_first(), n)
    }
}

/// The collection `s` with the item `x` put in its place, or `s` itself
/// where an item of that name is there already.
pub open spec fn with_item<T: Named>(s: Seq<T>, x: T) -> Seq<T> {
    if has_name(s, x.name()) {
        s
    } else {
        s.insert(rank_of(s, x.name()), x)
    }
}

/// The collection `s` after the items `xs` were put into it one by one.
pub open spec fn with_items<T: Named>(s: Seq<T>, xs: Seq<T>) -> Seq<T>
    decreases xs.len(),
{
    if xs.len() == 0 {
        s
    } else {
        with_items(with_item(s, xs[0]), xs.drop_first())
    }
}

/// The place of a name in a sorted collection: all items before it have
/// smaller names and all from it on have names that are not smaller.
pub proof fn lemma_rank_of<T: Named>(s: Seq<T>, n: Seq<char>)
    requires
        sorted_by_name(s),
    ensures
        0 <= rank_of(s, n) <= s.len(),
        forall|i: int| 0 <= i < rank_of(s, n) ==> text_less((#[trigger] s[i]).name(), n),
        forall|i: int| rank_of(s, n) <= i < s.len() ==> !text_less((#[trigger] s[i]).name(), n),
        has_name(s, n) <==> rank_of(s, n) < s.len() && s[rank_of(s, n)].name() == n,
    decreases s.len(),
{
    if s.len() == 0 {
    } else if !text_less(s[0].name(), n) {
        assert forall|i: int| 0 <= i < s.len() implies !text_less((#[trigger] s[i]).name(), n) by {
            if i > 0 && text_less(s[i].name(), n) {
                lemma_text_less_transitive(s[0].name(), s[i].name(), n);
            }
        }
        if has_name(s, n) {
            let i = choose|i: int| 0 <= i < s.len() && (#[trigger] s[i]).name() == n;
            if i > 0 {
                lemma_text_less_asymmetric(s[0].name(), s[i].name());
                lemma_text_less_total(s[0].name(), n);
            }
        }
    } else {
        let t = s.drop_first();
        assert(sorted_by_name(t)) by {
            assert forall|i: int, j: int| 0 <= i < j < t.len() implies text_less(
                (#[trigger] t[i]).name(),
                (#[trigger] t[j]).name(),
            ) by {
                assert(t[i] == s[i + 1]);
                assert(t[j] == s[j + 1]);
            }
        }
        lemma_rank_of(t, n);
        let r = rank_of(s, n);
        assert forall|i: int| 0 <= i < r implies text_less((#[trigger] s[i]).name(), n) by {
            if i > 0 {
                assert(s[i] == t[i - 1]);
            }
        }
        assert forall|i: int| r <= i < s.len() implies !text_less((#[trigger] s[i]).name(), n) by {
            assert(s[i] == t[i - 1]);
        }
        lemma_text_less_irreflexive(n);
        if has_name(s, n) {
            let i = choose|i: int| 0 <= i < s.len() && (#[trigger] s[i]).name() == n;
            assert(i > 0);
            assert(t[i - 1] == s[i]);
            assert(has_name(t, n));
        }
        if has_name(t, n) {
            let i = choose|i: int| 0 <= i < t.len() && (#[trigger] t[i]).name() == n;
            assert(s[i + 1] == t[i]);
            assert(has_name(s, n));
        }
        if r < s.len() {
            assert(s[r] == t[r - 1]);
        }
    }
}

/// Putting an item into a sorted collection leaves it sorted, and the
/// names in it are those that were there and the name of the item.
pub proof fn lemma_with_item<T: Named>(s: Seq<T>, x: T)
    requires
        sorted_by_name(s),
    ensures
        sorted_by_name(with_item(s, x)),
        forall|n: Seq<char>| has_name(with_item(s, x), n) <==> has_name(s, n) || n == x.name(),
{
    let n = x.name();
    let r = rank_of(s, n);
    let w = with_item(s, x);
    lemma_rank_of(s, n);
    if has_name(s, n) {
    } else {
        assert forall|i: int, j: int| 0 <= i < j < w.len() implies text_less(
            (#[trigger] w[i]).name(),
            (#[trigger] w[j]).name(),
        ) by {
            let a = if i < r {
                i
            } else {
                i - 1
            };
            let b = if j < r {
                j
            } else {
                j - 1
            };
            if i == r {
                assert(w[j] == s[b]);
                lemma_text_less_total(s[b].name(), n);
                assert(s[b].name() != n);
            } else if j == r {
                assert(w[i] == s[a]);
            } else {
                assert(w[i] == s[a]);
                assert(w[j] == s[b]);
            }
        }
        assert forall|m: Seq<char>| has_name(w, m) <==> has_name(s, m) || m == n by {
            if has_name(w, m) {
                let i = choose|i: int| 0 <= i < w.len() && (#[trigger] w[i]).name() == m;
                if i < r {
                    assert(w[i] == s[i]);
                } else if i > r {
                    assert(w[i] == s[i - 1]);
                }
            }
            if has_name(s, m) {
                let i = choose|i: int| 0 <= i < s.len() && (#[trigger] s[i]).name() == m;
                if i < r {
                    assert(w[i] == s[i]);
                } else {
                    assert(w[i + 1] == s[i]);
                }
            }
            if m == n {
                assert(w[r] == x);
            }
        }
    }
}

/// Putting items into a sorted collection one by one leaves it sorted,
/// and the names in it are those that were there and those of the items.
pub proof fn lemma_with_items<T: Named>(s: Seq<T>, xs: Seq<T>)
    requires
        sorted_by_name(s),
    ensures
        sorted_by_name(with_items(s, xs)),
        forall|n: Seq<char>| has_name(with_items(s, xs), n) <==> has_name(s, n) || has_name(xs, n),
    decreases xs.len(),
{
    if xs.len() == 0 {
    } else {
        let t = xs.drop_first();
        let w = with_item(s, xs[0]);
        lemma_with_item(s, xs[0]);
        lemma_with_items(w, t);
        assert forall|n: Seq<char>| has_name(with_items(s, xs), n) <==> has_name(s, n) || has_name(
            xs,
            n,
        ) by {
            if has_name(t, n) {
                let i = choose|i: int| 0 <= i < t.len() && (#[trigger] t[i]).name() == n;
                assert(xs[i + 1] == t[i]);
            }
            if has_name(xs, n) {
                let i = choose|i: int| 0 <= i < xs.len() && (#[trigger] xs[i]).name() == n;
                if i > 0 {
                    assert(t[i - 1] == xs[i]);
                }
            }
        }
    }
}

/// An item that a collection held keeps its place in front of the items
/// of the same name that are put in later: the item of a name in the
/// result is the one that was there first.
pub proof fn lemma_with_item_keeps<T: Named>(s: Seq<T>, x: T, i: int)
    requires
        sorted_by_name(s),
        0 <= i < s.len(),
    ensures
        exists|j: int| 0 <= j < with_item(s, x).len() && with_item(s, x)[j] == s[i],
{
    let r = rank_of(s, x.name());
    let w = with_item(s, x);
    lemma_rank_of(s, x.name());
    if has_name(s, x.name()) {
        assert(w[i] == s[i]);
    } else if i < r {
        assert(w[i] == s[i]);
    } else {
        assert(w[i + 1] == s[i]);
    }
}

/// The names among the first `i + 1` items are those among the first `i`
/// and the name of the item at `i`.
pub proof fn lemma_has_name_take<T: Named>(s: Seq<T>, i: int)
    requires
        0 <= i < s.len(),
    ensures
        forall|n: Seq<char>|
            has_name(s.take(i + 1), n) <==> has_name(s.take(i), n) || n == s[i].name(),
{
    let before = s.take(i);
    let after = s.take(i + 1);
    assert forall|n: Seq<char>| has_name(after, n) <==> has_name(before, n) || n
        == s[i].name() by {
        if has_name(before, n) {
            let k = choose|k: int| 0 <= k < before.len() && (#[trigger] before[k]).name() == n;
            assert(after[k] == before[k]);
        }
        if n == s[i].name() {
            assert(after[i] == s[i]);
        }
        if has_name(after, n) {
            let k = choose|k: int| 0 <= k < after.len() && (#[trigger] after[k]).name() == n;
            if k < i {
                assert(before[k] == after[k]);
            }
        }
    }
}

/// An item that is put into a collection which did not hold its name is
/// in the collection afterwards.
pub proof fn lemma_with_item_holds<T: Named>(s: Seq<T>, x: T)
    requires
        sorted_by_name(s),
        !has_name(s, x.name()),
    ensures
        exists|j: int| 0 <= j < with_item(s, x).len() && with_item(s, x)[j] == x,
        with_item(s, x).len() == s.len() + 1,
{
    lemma_rank_of(s, x.name());
    assert(with_item(s, x)[rank_of(s, x.name())] == x);
}

/// A sorted collection that holds the name `n` holds no other name
/// exactly when it has one item.
pub proof fn lemma_lone_name<T: Named>(s: Seq<T>, n: Seq<char>)
    requires
        sorted_by_name(s),
    ensures
        has_name(s, n) ==> (s.len() == 1 <==> forall|m: Seq<char>| has_name(s, m) ==> m == n),
{
    if has_name(s, n) {
        if s.len() >= 2 {
            assert(has_name(s, s[0].name()));
            assert(has_name(s, s[1].name()));
            assert(text_less(s[0].name(), s[1].name()));
            lemma_text_less_irreflexive(n);
        }
    }
}

/// A collection of named items, sorted by name, in which no name occurs
/// twice.
pub struct NamedSet<T: Named> {
    items: Vec<T>,
}

impl<T: Named> View for NamedSet<T> {
    type V = Seq<T>;

    closed spec fn view(&self) -> Seq<T> {
        self.items@
    }
}

impl<T: Named> NamedSet<T> {
    #[verifier::type_invariant]
    spec fn well_formed(&self) -> bool {
        sorted_by_name(self.items@)
    }

    /// The empty collection.
    pub fn new() -> (r: Self)
        ensures
            r@.len() == 0,
    {
        NamedSet { items: Vec::new() }
    }

    /// The number of items.
    pub fn len(&self) -> (n: usize)
        ensures
            n == self@.len(),
            sorted_by_name(self@),
    {
        proof {
            use_type_invariant(self);
        }
        self.items.len()
    }

    /// The item at position `i` in the order of names.
    pub fn get(&self, i: usize) -> (r: &T)
        requires
            i < self@.len(),
        ensures
            *r == self@[i as int],
    {
        &self.items[i]
    }

    /// Where an item of the name `name` stands or would stand, and whether
    /// one stands there.
    pub fn locate(&self, name: &Vec<char>) -> (r: (usize, bool))
        ensures
            r.0 == rank_of(self@, name@),
            r.1 == has_name(self@, name@),
            r.0 <= self@.len(),
            r.1 ==> r.0 < self@.len() && self@[r.0 as int].name() == name@,
            sorted_by_name(self@),
    {
        proof {
            use_type_invariant(self);
            lemma_rank_of(self@, name@);
        }
        let mut i: usize = 0;
        while i < self.items.len()
            invariant
                i <= self.items.len(),
                i <= rank_of(self.items@, name@),
                rank_of(self.items@, name@) <= self.items.len(),
                sorted_by_name(self.items@),
                has_name(self.items@, name@) <==> rank_of(self.items@, name@) < self.items.len()
                    && self.items@[rank_of(self.items@, name@)].name() == name@,
                forall|k: int|
                    0 <= k < rank_of(self.items@, name@) ==> text_less(
                        (#[trigger] self.items@[k]).name(),
                        name@,
                    ),
                forall|k: int|
                    rank_of(self.items@, name@) <= k < self.items.len() ==> !text_less(
                        (#[trigger] self.items@[k]).name(),
                        name@,
                    ),
            decreases self.items.len() - i,
        {
            let here = self.items[i].name_chars();
            if !chars_less(&here, name) {
                let found = same_chars(&here, name);
                return (i, found);
            }
            i += 1;
        }
        (i, false)
    }

    /// Whether an item has the name `name`.
    pub fn contains(&self, name: &str) -> (r: bool)
        ensures
            r == has_name(self@, name@),
    {
        let n = chars_of(name);
        self.locate(&n).1
    }

    /// The collection with `x` put into it, unless an item of that name is
    /// there already; the flag says whether `x` was put in.
    pub fn insert(self, x: T) -> (r: (Self, bool))
        ensures
            r.0@ == with_item(self@, x),
            r.1 == !has_name(self@, x.name()),
            sorted_by_name(r.0@),
    {
        proof {
            use_type_invariant(&self);
            lemma_with_item(self@, x);
        }
        let n = x.name_chars();
        let (at, found) = self.locate(&n);
        if found {
            (self, false)
        } else {
            let mut items = self.items;
            items.insert(at, x);
            (NamedSet { items }, true)
        }
    }
}

impl<T: Duplicate> NamedSet<T> {
    /// The collection with a copy of every item of `other` put into it, in
    /// the order of `other`; items whose names are there already are left
    /// out.
    pub fn extend_from(self, other: &NamedSet<T>) -> (r: Self)
        ensures
            r@ == with_items(self@, other@),
            sorted_by_name(r@),
            forall|n: Seq<char>| has_name(r@, n) <==> has_name(self@, n) || has_name(other@, n),
    {
        proof {
            use_type_invariant(&self);
            lemma_with_items(self@, other@);
            assert(other@.skip(0) == other@);
        }
        let ghost start = self@;
        let mut set = self;
        let mut i: usize = 0;
        while i < other.len()
            invariant
                i <= other@.len(),
                sorted_by_name(set@),
                with_items(start, other@) == with_items(set@, other@.skip(i as int)),
            decreases other@.len() - i,
        {
            let x = other.get(i).duplicate();
            proof {
                assert(other@.skip(i as int)[0] == x);
                assert(other@.skip(i as int).drop_first() == other@.skip(i + 1));
            }
            let (next, _) = set.insert(x);
            set = next;
            i += 1;
        }
        set
    }

    /// A copy of the collection.
    pub fn duplicate(&self) -> (r: Self)
        ensures
            r@ == self@,
    {
        proof {
            use_type_invariant(self);
        }
        let mut items: Vec<T> = Vec::new();
        let mut i: usize = 0;
        while i < self.items.len()
            invariant
                i <= self.items.len(),
                items@ == self.items@.take(i as int),
            decreases self.items.len() - i,
        {
            let x = self.items[i].duplicate();
            items.push(x);
            i += 1;
        }
        proof {
            assert(self.items@.take(self.items.len() as int) == self.items@);
        }
        NamedSet { items }
    }
}

} // verus!
