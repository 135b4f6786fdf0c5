//! Ordered sets: collections that hold no value twice and hand their
//! elements out in ascending order.

use vstd::prelude::*;

verus! {

/// How one value stands to another in a strict total order.
#[derive(Clone, Copy, Debug, PartialEq, Eq, Structural)]
pub enum Rank {
    Before,
    Same,
    After,
}

/// A type whose values are ordered by their mathematical value.
///
/// `precedes` is a strict total order on the views: the three proof methods
/// say so, and every implementation proves them.
pub trait Ranked: View + Sized {
    /// Whether `a` comes before `b`.
    spec fn precedes(a: Self::V, b: Self::V) -> bool;

    /// No value comes before itself.
    proof fn lemma_irreflexive(a: Self::V)
        ensures
            !Self::precedes(a, a),
    ;

    /// What comes before a value comes before all that the value comes before.
    proof fn lemma_transitive(a: Self::V, b: Self::V, c: Self::V)
        requires
            Self::precedes(a, b),
            Self::precedes(b, c),
        ensures
            Self::precedes(a, c),
    ;

    /// Of two different values one comes before the other.
    proof fn lemma_total(a: Self::V, b: Self::V)
        ensures
            Self::precedes(a, b) || a == b || Self::precedes(b, a),
    ;

    /// How `self` stands to `other`.
    fn rank(&self, other: &Self) -> (res: Rank)
        ensures
            res is Before <==> Self::precedes(self@, other@),
            res is Same <==> self@ == other@,
    ;

    /// A second value with the same mathematical value.
    fn duplicate(&self) -> (res: Self)
        ensures
            res@ == self@,
    ;
}

/// Whether the elements of `s` ascend strictly.
pub open spec fn is_ascending<T: Ranked>(s: Seq<T::V>) -> bool {
    forall|i: int, j: int| 0 <= i < j < s.len() ==> T::precedes(#[trigger] s[i], #[trigger] s[j])
}

/// `s` with `x` put at its place in the order, or `s` itself if it holds `x`.
pub open spec fn with_value<T: Ranked>(s: Seq<T::V>, x: T::V) -> Seq<T::V>
    decreases s.len(),
{
    if s.len() == 0 {
        seq![x]
    } else if T::precedes(x, s.first()) {
        seq![x] + s
    } else if x == s.first() {
        s
    } else {
        seq![s.first()] + with_value::<T>(s.drop_first(), x)
    }
}

/// The ordered set that results when the values of `items` are put into an
/// empty one, one after the other.
pub open spec fn collected<T: Ranked>(items: Seq<T::V>) -> Seq<T::V>
    decreases items.len(),
{
    if items.len() == 0 {
        Seq::empty()
    } else {
        with_value::<T>(collected::<T>(items.drop_last()), items.last())
    }
}

/// Whether `a` comes before `b` in the order of sequences: by the first
/// place at which they differ, a proper prefix before what it is a prefix of.
pub open spec fn precedes_in_turn<T: Ranked>(a: Seq<T::V>, b: Seq<T::V>) -> bool
    decreases a.len(),
{
    if b.len() == 0 {
        false
    } else if a.len() == 0 {
        true
    } else if T::precedes(a.first(), b.first()) {
        true
    } else if a.first() == b.first() {
        precedes_in_turn::<T>(a.drop_first(), b.drop_first())
    } else {
        false
    }
}

/// Putting a value into an ascending sequence leaves it ascending, and the
/// result holds the value and what the sequence held, nothing else.
pub proof fn lemma_with_value<T: Ranked>(s: Seq<T::V>, x: T::V)
    requires
        is_ascending::<T>(s),
    ensures
        is_ascending::<T>(with_value::<T>(s, x)),
        forall|y: T::V| #[trigger] with_value::<T>(s, x).contains(y) <==> y == x || s.contains(y),
        with_value::<T>(s, x).len() == if s.contains(x) {
            s.len()
        } else {
            s.len() + 1
        },
    decreases s.len(),
{
    let r = with_value::<T>(s, x);
    if s.len() == 0 {
        assert(r[0] == x);
        assert forall|y: T::V| #[trigger] r.contains(y) <==> y == x || s.contains(y) by {
            if y == x {
                assert(r[0] == y);
            }
        }
    } else if T::precedes(x, s.first()) {
        assert forall|i: int, j: int| 0 <= i < j < r.len() implies T::precedes(
            #[trigger] r[i],
            #[trigger] r[j],
        ) by {
            if i == 0 {
                if j > 1 {
                    T::lemma_transitive(x, s[0], s[j - 1]);
                }
            } else {
                assert(r[i] == s[i - 1] && r[j] == s[j - 1]);
            }
        }
        assert forall|y: T::V| #[trigger] r.contains(y) <==> y == x || s.contains(y) by {
            if y == x {
                assert(r[0] == y);
            }
            if s.contains(y) {
                let k = choose|k: int| 0 <= k < s.len() && s[k] == y;
                assert(r[k + 1] == y);
            }
            if r.contains(y) {
                let k = choose|k: int| 0 <= k < r.len() && r[k] == y;
                if k > 0 {
                    assert(s[k - 1] == y);
                }
            }
        }
        assert(!s.contains(x)) by {
            if s.contains(x) {
                let k = choose|k: int| 0 <= k < s.len() && s[k] == x;
                if k > 0 {
                    T::lemma_transitive(x, s[0], s[k]);
                }
                T::lemma_irreflexive(x);
            }
        }
    } else if x == s.first() {
        assert(s[0] == x);
    } else {
        let rest = s.drop_first();
        let inner = with_value::<T>(rest, x);
        assert forall|i: int, j: int| 0 <= i < j < rest.len() implies T::precedes(
            #[trigger] rest[i],
            #[trigger] rest[j],
        ) by {
            assert(rest[i] == s[i + 1] && rest[j] == s[j + 1]);
        }
        lemma_with_value::<T>(rest, x);
        T::lemma_total(x, s.first());
        assert forall|i: int, j: int| 0 <= i < j < r.len() implies T::precedes(
            #[trigger] r[i],
            #[trigger] r[j],
        ) by {
            if i == 0 {
                let y = inner[j - 1];
                assert(inner.contains(y));
                if y != x {
                    let k = choose|k: int| 0 <= k < rest.len() && rest[k] == y;
                    assert(s[k + 1] == y);
                }
            } else {
                assert(r[i] == inner[i - 1] && r[j] == inner[j - 1]);
            }
        }
        assert forall|y: T::V| #[trigger] r.contains(y) <==> y == x || s.contains(y) by {
            if r.contains(y) {
                let k = choose|k: int| 0 <= k < r.len() && r[k] == y;
                if k > 0 {
                    assert(inner[k - 1] == y);
                    assert(inner.contains(y));
                    if y != x {
                        let m = choose|m: int| 0 <= m < rest.len() && rest[m] == y;
                        assert(s[m + 1] == y);
                    }
                } else {
                    assert(s[0] == y);
                }
            }
            if y == x {
                assert(inner.contains(x));
                let k = choose|k: int| 0 <= k < inner.len() && inner[k] == x;
                assert(r[k + 1] == x);
            }
            if s.contains(y) {
                let k = choose|k: int| 0 <= k < s.len() && s[k] == y;
                if k == 0 {
                    assert(r[0] == y);
                } else {
                    assert(rest[k - 1] == y);
                    assert(rest.contains(y));
                    assert(inner.contains(y));
                    let m = choose|m: int| 0 <= m < inner.len() && inner[m] == y;
                    assert(r[m + 1] == y);
                }
            }
        }
        assert(s.contains(x) <==> rest.contains(x)) by {
            if s.contains(x) {
                let k = choose|k: int| 0 <= k < s.len() && s[k] == x;
                assert(k > 0);
                assert(rest[k - 1] == x);
            }
            if rest.contains(x) {
                let k = choose|k: int| 0 <= k < rest.len() && rest[k] == x;
                assert(s[k + 1] == x);
            }
        }
    }
}

/// What is collected from any sequence ascends and holds exactly the values
/// of the sequence.
pub proof fn lemma_collected<T: Ranked>(items: Seq<T::V>)
    ensures
        is_ascending::<T>(collected::<T>(items)),
        forall|y: T::V| #[trigger] collected::<T>(items).contains(y) <==> items.contains(y),
    decreases items.len(),
{
    if items.len() > 0 {
        let before = items.drop_last();
        lemma_collected::<T>(before);
        lemma_with_value::<T>(collected::<T>(before), items.last());
        assert forall|y: T::V| #[trigger]
            collected::<T>(items).contains(y) <==> items.contains(y) by {
            if items.contains(y) {
                let k = choose|k: int| 0 <= k < items.len() && items[k] == y;
                if k < before.len() {
                    assert(before[k] == y);
                    assert(before.contains(y));
                }
            }
            if before.contains(y) {
                let k = choose|k: int| 0 <= k < before.len() && before[k] == y;
                assert(items[k] == y);
            }
            if y == items.last() {
                assert(items[items.len() - 1] == y);
            }
        }
    }
}

/// The mathematical values of the elements of `s`, in order.
pub open spec fn views_of<T: View>(s: Seq<T>) -> Seq<T::V> {
    Seq::new(s.len(), |i: int| s[i]@)
}

/// Where `x` goes in `s`: if everything before place `i` comes after `x`
/// in rank and differs from it, then `x` is put at `i` if it comes before
/// what stands there or nothing stands there, and `s` stays as it is if `x`
/// stands there already.
proof fn lemma_with_value_at<T: Ranked>(s: Seq<T::V>, x: T::V, i: int)
    requires
        0 <= i <= s.len(),
        forall|j: int| 0 <= j < i ==> !T::precedes(x, #[trigger] s[j]) && x != s[j],
    ensures
        i == s.len() || T::precedes(x, s[i]) ==> with_value::<T>(s, x) == s.insert(i, x),
        i < s.len() && x == s[i] ==> with_value::<T>(s, x) == s,
    decreases i,
{
    if i == 0 {
        T::lemma_irreflexive(x);
        if s.len() == 0 {
            assert(s.insert(0, x) == seq![x]);
        } else if T::precedes(x, s[0]) {
            assert(s.insert(0, x) == seq![x] + s);
        }
    } else {
        let rest = s.drop_first();
        assert(!T::precedes(x, s[0]) && x != s[0]);
        assert forall|j: int| 0 <= j < i - 1 implies !T::precedes(x, #[trigger] rest[j]) && x
            != rest[j] by {
            assert(rest[j] == s[j + 1]);
        }
        lemma_with_value_at::<T>(rest, x, i - 1);
        if i == s.len() || T::precedes(x, s[i]) {
            assert(i < s.len() ==> rest[i - 1] == s[i]);
            assert(seq![s.first()] + rest.insert(i - 1, x) == s.insert(i, x));
        }
        if i < s.len() && x == s[i] {
            assert(rest[i - 1] == s[i]);
            assert(seq![s.first()] + rest == s);
        }
    }
}

/// A set of values of one type that holds no value twice and keeps its
/// elements in ascending order.
#[derive(Debug, PartialEq, Eq, PartialOrd, Ord, Hash)]
pub struct OrderedSet<T: Ranked> {
    items: Vec<T>,
}

impl<T: Ranked> View for OrderedSet<T> {
    type V = Seq<T::V>;

    /// The elements in ascending order.
    closed spec fn view(&self) -> Seq<T::V> {
        views_of(self.items@)
    }
}

impl<T: Ranked> OrderedSet<T> {
    #[verifier::type_invariant]
    spec fn ascends(self) -> bool {
        is_ascending::<T>(self@)
    }

    /// The empty set.
    pub fn new() -> (res: Self)
        ensures
            res@ == Seq::<T::V>::empty(),
    {
        let res = OrderedSet { items: Vec::new() };
        assert(res@ =~= Seq::<T::V>::empty());
        res
    }

    /// The number of elements.
    pub fn len(&self) -> (res: usize)
        ensures
            res == self@.len(),
    {
        self.items.len()
    }

    /// Whether the set holds nothing.
    pub fn is_empty(&self) -> (res: bool)
        ensures
            res == (self@.len() == 0),
    {
        self.items.len() == 0
    }

    /// The elements in ascending order.
    pub fn as_slice(&self) -> (res: &[T])
        ensures
            views_of(res@) == self@,
            is_ascending::<T>(self@),
    {
        proof {
            use_type_invariant(self);
        }
        self.items.as_slice()
    }

    /// Whether the set holds a value equal to `item`.
    pub fn contains(&self, item: &T) -> (res: bool)
        ensures
            res == self@.contains(item@),
    {
        let mut i: usize = 0;
        while i < self.items.len()
            invariant
                i <= self.items.len(),
                forall|j: int| 0 <= j < i ==> self@[j] != item@,
            decreases self.items.len() - i,
        {
            match item.rank(&self.items[i]) {
                Rank::Same => {
                    assert(self@[i as int] == item@);
                    return true;
                },
                _ => {},
            }
            i = i + 1;
        }
        false
    }

    /// Puts `item` into the set unless the set holds an equal value already,
    /// and says whether it was put in.
    pub fn insert(&mut self, item: T) -> (res: bool)
        ensures
            final(self)@ == with_value::<T>(old(self)@, item@),
            res == !old(self)@.contains(item@),
            is_ascending::<T>(final(self)@),
    {
        proof {
            use_type_invariant(&*self);
            lemma_with_value::<T>(self@, item@);
        }
        let mut i: usize = 0;
        while i < self.items.len()
            invariant
                i <= self.items.len(),
                *self == *old(self),
                is_ascending::<T>(self@),
                forall|j: int|
                    0 <= j < i ==> !T::precedes(item@, #[trigger] self@[j]) && item@ != self@[j],
            ensures
                i <= self.items.len(),
                forall|j: int|
                    0 <= j < i ==> !T::precedes(item@, #[trigger] self@[j]) && item@ != self@[j],
                i == self.items.len() || T::precedes(item@, self@[i as int]),
            decreases self.items.len() - i,
        {
            match item.rank(&self.items[i]) {
                Rank::Before => {
                    break ;
                },
                Rank::Same => {
                    proof {
                        lemma_with_value_at::<T>(self@, item@, i as int);
                    }
                    return false;
                },
                Rank::After => {},
            }
            i = i + 1;
        }
        proof {
            lemma_with_value_at::<T>(self@, item@, i as int);
            assert(views_of(self.items@.insert(i as int, item)) =~= self@.insert(i as int, item@));
            assert(!self@.contains(item@)) by {
                if self@.contains(item@) {
                    let k = choose|k: int| 0 <= k < self@.len() && self@[k] == item@;
                    if k >= i {
                        if k > i {
                            T::lemma_transitive(item@, self@[i as int], self@[k]);
                        }
                        T::lemma_irreflexive(item@);
                    }
                }
            }
        }
        let ghost before = self@;
        let mut items: Vec<T> = Vec::new();
        assert(views_of(items@) =~= Seq::<T::V>::empty());
        std::mem::swap(&mut items, &mut self.items);
        items.insert(i, item);
        assert(views_of(items@) == with_value::<T>(before, item@));
        self.items = items;
        true
    }
}

/// No sequence comes before itself.
pub proof fn lemma_in_turn_irreflexive<T: Ranked>(a: Seq<T::V>)
    ensures
        !precedes_in_turn::<T>(a, a),
    decreases a.len(),
{
    if a.len() > 0 {
        T::lemma_irreflexive(a.first());
        lemma_in_turn_irreflexive::<T>(a.drop_first());
    }
}

/// The order of sequences is transitive.
pub proof fn lemma_in_turn_transitive<T: Ranked>(a: Seq<T::V>, b: Seq<T::V>, c: Seq<T::V>)
    requires
        precedes_in_turn::<T>(a, b),
        precedes_in_turn::<T>(b, c),
    ensures
        precedes_in_turn::<T>(a, c),
    decreases a.len(),
{
    if a.len() > 0 {
        if T::precedes(a.first(), b.first()) {
            if T::precedes(b.first(), c.first()) {
                T::lemma_transitive(a.first(), b.first(), c.first());
            }
        } else if T::precedes(b.first(), c.first()) {
        } else {
            lemma_in_turn_transitive::<T>(a.drop_first(), b.drop_first(), c.drop_first());
        }
    }
}

/// Of two different sequences one comes before the other.
pub proof fn lemma_in_turn_total<T: Ranked>(a: Seq<T::V>, b: Seq<T::V>)
    ensures
        precedes_in_turn::<T>(a, b) || a == b || precedes_in_turn::<T>(b, a),
    decreases a.len(),
{
    if a.len() == 0 || b.len() == 0 {
        if a.len() == 0 && b.len() == 0 {
            assert(a =~= b);
        }
    } else {
        T::lemma_total(a.first(), b.first());
        if a.first() == b.first() {
            lemma_in_turn_total::<T>(a.drop_first(), b.drop_first());
            if a.drop_first() == b.drop_first() {
                assert(a =~= seq![a.first()] + a.drop_first());
                assert(b =~= seq![b.first()] + b.drop_first());
            }
        }
    }
}

/// The order of two sequences is decided behind a common prefix.
proof fn lemma_in_turn_behind_prefix<T: Ranked>(a: Seq<T::V>, b: Seq<T::V>, i: int)
    requires
        0 <= i <= a.len(),
        i <= b.len(),
        forall|j: int| 0 <= j < i ==> a[j] == b[j],
    ensures
        precedes_in_turn::<T>(a, b) == precedes_in_turn::<T>(a.skip(i), b.skip(i)),
    decreases i,
{
    if i == 0 {
        assert(a.skip(0) == a);
        assert(b.skip(0) == b);
    } else {
        T::lemma_irreflexive(a.first());
        assert(a[0] == b[0]);
        assert forall|j: int| 0 <= j < i - 1 implies a.drop_first()[j] == b.drop_first()[j] by {
            assert(a[j + 1] == b[j + 1]);
        }
        lemma_in_turn_behind_prefix::<T>(a.drop_first(), b.drop_first(), i - 1);
        assert(a.drop_first().skip(i - 1) == a.skip(i));
        assert(b.drop_first().skip(i - 1) == b.skip(i));
    }
}

impl<T: Ranked> OrderedSet<T> {
    /// How this set stands to `other` in the order of sets, which is the
    /// order of their ascending sequences in turn.
    pub fn rank(&self, other: &Self) -> (res: Rank)
        ensures
            res is Before <==> precedes_in_turn::<T>(self@, other@),
            res is Same <==> self@ == other@,
    {
        let mut i: usize = 0;
        while i < self.items.len() && i < other.items.len()
            invariant
                i <= self.items.len(),
                i <= other.items.len(),
                forall|j: int| 0 <= j < i ==> self@[j] == other@[j],
            decreases self.items.len() - i,
        {
            proof {
                lemma_in_turn_behind_prefix::<T>(self@, other@, i as int);
                assert(self@.skip(i as int).first() == self@[i as int]);
                assert(other@.skip(i as int).first() == other@[i as int]);
            }
            match self.items[i].rank(&other.items[i]) {
                Rank::Before => {
                    return Rank::Before;
                },
                Rank::After => {
                    return Rank::After;
                },
                Rank::Same => {},
            }
            i = i + 1;
        }
        proof {
            lemma_in_turn_behind_prefix::<T>(self@, other@, i as int);
        }
        if i < other.items.len() {
            Rank::Before
        } else if i < self.items.len() {
            Rank::After
        } else {
            assert(self@ =~= other@);
            Rank::Same
        }
    }

    /// A second set with the same elements.
    pub fn duplicate(&self) -> (res: Self)
        ensures
            res@ == self@,
    {
        proof {
            use_type_invariant(self);
        }
        let mut items: Vec<T> = Vec::new();
        let mut i: usize = 0;
        while i < self.items.len()
            invariant
                i <= self.items.len(),
                items@.len() == i,
                forall|j: int| 0 <= j < i ==> items@[j]@ == self.items@[j]@,
            decreases self.items.len() - i,
        {
            items.push(self.items[i].duplicate());
            i = i + 1;
        }
        assert(views_of(items@) =~= self@);
        OrderedSet { items }
    }
}

impl<T: Ranked> Clone for OrderedSet<T> {
    fn clone(&self) -> (res: Self)
        ensures
            res@ == self@,
    {
        self.duplicate()
    }
}

} // verus!
