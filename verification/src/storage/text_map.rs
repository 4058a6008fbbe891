//! A map from texts, kept in the order of its keys.

use crate::text::chars_of;
use vstd::prelude::*;

verus! {

/// Two texts agree before place `i`, where the first is over or has the lesser character.
pub open spec fn differs_at(a: Seq<char>, b: Seq<char>, i: int) -> bool {
    &&& 0 <= i <= a.len()
    &&& i < b.len()
    &&& a.take(i) == b.take(i)
    &&& i == a.len() || a[i] < b[i]
}

/// A text comes before another in the order of their characters.
pub open spec fn before(a: Seq<char>, b: Seq<char>) -> bool {
    exists|i: int| differs_at(a, b, i)
}

/// No text comes before itself.
pub proof fn before_is_irreflexive(a: Seq<char>)
    ensures
        !before(a, a),
{
}

/// What comes before something that comes before a third comes before the third.
pub proof fn before_is_transitive(a: Seq<char>, b: Seq<char>, c: Seq<char>)
    requires
        before(a, b),
        before(b, c),
    ensures
        before(a, c),
{
    let i = choose|i: int| differs_at(a, b, i);
    let j = choose|j: int| differs_at(b, c, j);
    let k = if i <= j {
        i
    } else {
        j
    };
    assert(a.take(k) == c.take(k)) by {
        assert(a.take(k) == a.take(i).take(k));
        assert(b.take(k) == b.take(i).take(k));
        assert(b.take(k) == b.take(j).take(k));
        assert(c.take(k) == c.take(j).take(k));
    }
    if i < j {
        assert(b[i] == b.take(j)[i]);
        assert(c[i] == c.take(j)[i]);
    } else if j < i {
        assert(a[j] == a.take(i)[j]);
        assert(b[j] == b.take(i)[j]);
    }
    assert(differs_at(a, c, k));
}

/// Of two texts, if they are not the same, one comes before the other.
pub proof fn before_is_total(a: Seq<char>, b: Seq<char>)
    ensures
        a == b || before(a, b) || before(b, a),
{
    assert(a.take(0) == b.take(0));
    total_from(a, b, 0);
}

proof fn total_from(a: Seq<char>, b: Seq<char>, i: int)
    requires
        0 <= i <= a.len(),
        i <= b.len(),
        a.take(i) == b.take(i),
    ensures
        a == b || before(a, b) || before(b, a),
    decreases a.len() - i,
{
    if i == a.len() {
        if i == b.len() {
            assert(a.take(i) == a);
            assert(b.take(i) == b);
        } else {
            assert(differs_at(a, b, i));
        }
    } else if i == b.len() {
        assert(differs_at(b, a, i));
    } else if a[i] < b[i] {
        assert(differs_at(a, b, i));
    } else if b[i] < a[i] {
        assert(differs_at(b, a, i));
    } else {
        assert(a.take(i + 1) == a.take(i).push(a[i]));
        assert(b.take(i + 1) == b.take(i).push(b[i]));
        total_from(a, b, i + 1);
    }
}

/// How a text stands to another.
#[derive(Debug, Clone, Copy, PartialEq, Eq, Structural)]
pub enum Place {
    Before,
    Same,
    After,
}

/// How a text stands to another.
pub fn place_of(a: &str, b: &str) -> (r: Place)
    ensures
        match r {
            Place::Before => before(a@, b@),
            Place::Same => a@ == b@,
            Place::After => before(b@, a@),
        },
{
    let left = chars_of(a);
    let right = chars_of(b);
    let mut i: usize = 0;
    while i < left.len() && i < right.len()
        invariant
            left@ == a@,
            right@ == b@,
            i <= left@.len(),
            i <= right@.len(),
            a@.take(i as int) == b@.take(i as int),
        decreases left@.len() - i,
    {
        if left[i] < right[i] {
            assert(differs_at(a@, b@, i as int));
            return Place::Before;
        }
        if right[i] < left[i] {
            assert(differs_at(b@, a@, i as int));
            return Place::After;
        }
        proof {
            assert(a@.take(i + 1) == a@.take(i as int).push(a@[i as int]));
            assert(b@.take(i + 1) == b@.take(i as int).push(b@[i as int]));
        }
        i = i + 1;
    }
    if i < right.len() {
        assert(differs_at(a@, b@, i as int));
        Place::Before
    } else if i < left.len() {
        assert(differs_at(b@, a@, i as int));
        Place::After
    } else {
        assert(a@.take(i as int) == a@);
        assert(b@.take(i as int) == b@);
        Place::Same
    }
}

/// A map from texts. Its entries are in the order of their keys, and no key occurs twice.
#[derive(Debug)]
pub struct TextMap<V> {
    entries: Vec<(String, V)>,
}

impl<V> TextMap<V> {
    /// The entries.
    pub closed spec fn pairs(self) -> Seq<(String, V)> {
        self.entries@
    }

    /// Each key comes before those that stand behind it.
    pub open spec fn ordered(self) -> bool {
        forall|i: int, j: int|
            0 <= i < j < self.pairs().len() ==> before(
                #[trigger] self.pairs()[i].0@,
                #[trigger] self.pairs()[j].0@,
            )
    }

    /// A key is there.
    pub open spec fn has(self, key: Seq<char>) -> bool {
        exists|i: int| 0 <= i < self.pairs().len() && #[trigger] self.pairs()[i].0@ == key
    }

    /// Where a key is.
    pub open spec fn index_of(self, key: Seq<char>) -> int {
        choose|i: int| 0 <= i < self.pairs().len() && #[trigger] self.pairs()[i].0@ == key
    }

    /// A map with nothing in it.
    pub fn new() -> (r: TextMap<V>)
        ensures
            r.ordered(),
            r@ == Map::<Seq<char>, V>::empty(),
            r.pairs().len() == 0,
    {
        let r = TextMap { entries: Vec::new() };
        assert(r@ == Map::<Seq<char>, V>::empty());
        r
    }

    /// The entries, in the order of their keys.
    pub fn entries(&self) -> (r: &Vec<(String, V)>)
        ensures
            r@ == self.pairs(),
    {
        &self.entries
    }

    /// Puts a value under a key, in place of one that is there.
    pub fn put(&mut self, key: String, value: V)
        requires
            old(self).ordered(),
        ensures
            final(self).ordered(),
            final(self)@ == old(self)@.insert(key@, value),
    {
        let ghost was = *self;
        let mut at: usize = 0;
        while at < self.entries.len()
            invariant
                was == *self,
                was.ordered(),
                at <= self.entries@.len(),
                forall|i: int| 0 <= i < at ==> before(#[trigger] was.pairs()[i].0@, key@),
            ensures
                at <= self.entries@.len(),
                at < self.entries@.len() ==> !before(was.pairs()[at as int].0@, key@),
            decreases self.entries@.len() - at,
        {
            match place_of(self.entries[at].0.as_str(), key.as_str()) {
                Place::Before => {
                    at = at + 1;
                },
                Place::Same => {
                    proof {
                        before_is_irreflexive(key@);
                    }
                    break;
                },
                Place::After => {
                    proof {
                        if before(was.pairs()[at as int].0@, key@) {
                            before_is_transitive(key@, was.pairs()[at as int].0@, key@);
                            before_is_irreflexive(key@);
                        }
                    }
                    break;
                },
            }
        }
        let ghost k = key@;
        if at < self.entries.len() {
            match place_of(self.entries[at].0.as_str(), key.as_str()) {
                Place::Same => {
                    self.entries.set(at, (key, value));
                    proof {
                        put_over(was, *self, at as int, k, value);
                    }
                    return ;
                },
                _ => {},
            }
        }
        proof {
            if at < was.pairs().len() {
                before_is_total(k, was.pairs()[at as int].0@);
            }
        }
        self.entries.insert(at, (key, value));
        proof {
            put_between(was, *self, at as int, k, value);
        }
    }
}

impl<V> View for TextMap<V> {
    type V = Map<Seq<char>, V>;

    open spec fn view(&self) -> Map<Seq<char>, V> {
        Map::new(
            |key: Seq<char>| self.has(key),
            |key: Seq<char>| self.pairs()[self.index_of(key)].1,
        )
    }
}

/// In an ordered map a key stands in one place.
pub proof fn key_is_unique<V>(map: TextMap<V>, i: int)
    requires
        map.ordered(),
        0 <= i < map.pairs().len(),
    ensures
        map.has(map.pairs()[i].0@),
        map.index_of(map.pairs()[i].0@) == i,
        map@.dom().contains(map.pairs()[i].0@),
        map@[map.pairs()[i].0@] == map.pairs()[i].1,
{
    let key = map.pairs()[i].0@;
    assert(map.has(key));
    let j = map.index_of(key);
    assert(map.pairs()[j].0@ == key);
    before_is_irreflexive(key);
    if j < i {
        assert(before(map.pairs()[j].0@, map.pairs()[i].0@));
    } else if i < j {
        assert(before(map.pairs()[i].0@, map.pairs()[j].0@));
    }
}

proof fn put_over<V>(was: TextMap<V>, is: TextMap<V>, at: int, key: Seq<char>, value: V)
    requires
        was.ordered(),
        0 <= at < was.pairs().len(),
        was.pairs()[at].0@ == key,
        is.pairs().len() == was.pairs().len(),
        is.pairs()[at].0@ == key,
        is.pairs()[at].1 == value,
        forall|i: int|
            0 <= i < was.pairs().len() && i != at ==> #[trigger] is.pairs()[i] == was.pairs()[i],
    ensures
        is.ordered(),
        is@ == was@.insert(key, value),
{
    assert forall|i: int, j: int| 0 <= i < j < is.pairs().len() implies before(
        #[trigger] is.pairs()[i].0@,
        #[trigger] is.pairs()[j].0@,
    ) by {
        assert(before(was.pairs()[i].0@, was.pairs()[j].0@));
    }
    assert forall|k: Seq<char>| is.has(k) == was@.insert(key, value).dom().contains(k) by {
        if is.has(k) {
            let i = is.index_of(k);
            assert(was.pairs()[i].0@ == k);
        }
        if was.has(k) {
            let i = was.index_of(k);
            assert(is.pairs()[i].0@ == k);
        }
        if k == key {
            assert(is.pairs()[at].0@ == k);
        }
    }
    assert forall|k: Seq<char>| is.has(k) implies is@[k] == was@.insert(key, value)[k] by {
        let i = is.index_of(k);
        key_is_unique(is, i);
        key_is_unique(was, i);
        key_is_unique(is, at);
    }
    assert(is@ == was@.insert(key, value));
}

proof fn put_between<V>(was: TextMap<V>, is: TextMap<V>, at: int, key: Seq<char>, value: V)
    requires
        was.ordered(),
        0 <= at <= was.pairs().len(),
        forall|i: int| 0 <= i < at ==> before(#[trigger] was.pairs()[i].0@, key),
        at < was.pairs().len() ==> before(key, was.pairs()[at].0@),
        is.pairs().len() == was.pairs().len() + 1,
        is.pairs()[at].0@ == key,
        is.pairs()[at].1 == value,
        is.pairs() == was.pairs().insert(at, is.pairs()[at]),
    ensures
        is.ordered(),
        is@ == was@.insert(key, value),
{
    assert forall|i: int| at <= i < was.pairs().len() implies before(
        key,
        #[trigger] was.pairs()[i].0@,
    ) by {
        if i > at {
            before_is_transitive(key, was.pairs()[at].0@, was.pairs()[i].0@);
        }
    }
    let old_place = |i: int|
        if i < at {
            i
        } else {
            i - 1
        };
    assert forall|i: int, j: int| 0 <= i < j < is.pairs().len() implies before(
        #[trigger] is.pairs()[i].0@,
        #[trigger] is.pairs()[j].0@,
    ) by {
        if i == at {
            assert(is.pairs()[j] == was.pairs()[j - 1]);
        } else if j == at {
            assert(is.pairs()[i] == was.pairs()[i]);
        } else {
            assert(is.pairs()[i] == was.pairs()[old_place(i)]);
            assert(is.pairs()[j] == was.pairs()[old_place(j)]);
            assert(before(was.pairs()[old_place(i)].0@, was.pairs()[old_place(j)].0@));
        }
    }
    assert(!was.has(key)) by {
        if was.has(key) {
            let i = was.index_of(key);
            before_is_irreflexive(key);
            assert(before(was.pairs()[i].0@, key) || before(key, was.pairs()[i].0@));
        }
    }
    assert forall|k: Seq<char>| is.has(k) == was@.insert(key, value).dom().contains(k) by {
        if is.has(k) {
            let i = is.index_of(k);
            if i != at {
                assert(was.pairs()[old_place(i)].0@ == k);
            }
        }
        if was.has(k) {
            let i = was.index_of(k);
            if i < at {
                assert(is.pairs()[i].0@ == k);
            } else {
                assert(is.pairs()[i + 1].0@ == k);
            }
        }
        if k == key {
            assert(is.pairs()[at].0@ == k);
        }
    }
    assert forall|k: Seq<char>| is.has(k) implies is@[k] == was@.insert(key, value)[k] by {
        let i = is.index_of(k);
        key_is_unique(is, i);
        if i != at {
            key_is_unique(was, old_place(i));
        }
    }
    assert(is@ == was@.insert(key, value));
}

/// Texts stand in the order of their characters: the first place in which they differ decides, there
/// the lesser character comes first, and a text comes before every longer one that begins with it.
pub proof fn lesser_character_comes_first(
    common: Seq<char>,
    x: char,
    y: char,
    left: Seq<char>,
    right: Seq<char>,
)
    ensures
        x != y ==> (before(common.push(x) + left, common.push(y) + right) <==> x < y),
        before(common, common.push(y) + right),
        !before(common.push(y) + right, common),
{
    let a = common.push(x) + left;
    let b = common.push(y) + right;
    let n = common.len() as int;
    assert(a.take(n) =~= common);
    assert(b.take(n) =~= common);
    assert(common.take(n) =~= common);
    assert(differs_at(common, b, n));
    if before(b, common) {
        before_is_transitive(common, b, common);
        before_is_irreflexive(common);
    }
    if x < y {
        assert(differs_at(a, b, n));
    } else if y < x {
        assert(differs_at(b, a, n));
        if before(a, b) {
            before_is_transitive(a, b, a);
            before_is_irreflexive(a);
        }
    }
}

} // verus!
