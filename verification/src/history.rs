use indexmap::IndexSet;
use vstd::prelude::*;

verus! {

#[verifier::external_type_specification]
#[verifier::external_body]
#[verifier::reject_recursive_types(T)]
#[verifier::reject_recursive_types(S)]
pub struct ExIndexSet<T, S>(IndexSet<T, S>);

/// The paths held by an `indexmap::IndexSet`, in their order.
pub uninterp spec fn set_items(s: IndexSet<String>) -> Seq<Seq<char>>;

/// The position of an item in a sequence, or -1 when it is not there.
pub open spec fn index_of_item(items: Seq<Seq<char>>, item: Seq<char>) -> int
    decreases items.len(),
{
    if items.len() == 0 {
        -1
    } else if items.last() == item {
        items.len() - 1
    } else {
        index_of_item(items.drop_last(), item)
    }
}

/// `IndexSet::new`: an empty set.
#[verifier::external_body]
fn set_new() -> (s: IndexSet<String>)
    ensures
        set_items(s) == Seq::<Seq<char>>::empty(),
{
    IndexSet::new()
}

/// `IndexSet::len`: the number of items.
#[verifier::external_body]
fn set_len(s: &IndexSet<String>) -> (n: usize)
    ensures
        n == set_items(*s).len(),
{
    s.len()
}

/// `IndexSet::get_index`: the item at an index, when the index is valid.
#[verifier::external_body]
fn set_get_index(s: &IndexSet<String>, i: usize) -> (r: Option<&String>)
    ensures
        match r {
            Some(item) => i < set_items(*s).len() && item@ == set_items(*s)[i as int],
            None => i >= set_items(*s).len(),
        },
{
    s.get_index(i)
}

/// `IndexSet::truncate`: keeps the first `len` items; an `IndexSet` never
/// holds two equal items.
#[verifier::external_body]
fn set_truncate(s: &mut IndexSet<String>, len: usize)
    ensures
        set_items(*final(s)) == if len < set_items(*old(s)).len() {
            set_items(*old(s)).take(len as int)
        } else {
            set_items(*old(s))
        },
        set_items(*final(s)).no_duplicates(),
{
    s.truncate(len)
}

/// `IndexSet::shift_remove`: removes an item equal to the given one,
/// shifting the items after it; `true` when there was one.
#[verifier::external_body]
fn set_shift_remove(s: &mut IndexSet<String>, item: &String) -> (removed: bool)
    ensures
        removed == (index_of_item(set_items(*old(s)), item@) >= 0),
        set_items(*final(s)) == if removed {
            set_items(*old(s)).remove(index_of_item(set_items(*old(s)), item@))
        } else {
            set_items(*old(s))
        },
{
    s.shift_remove(item)
}

/// `IndexSet::shift_remove_index`: removes the item at an index, shifting
/// the items after it; `None` when the index is not valid.
#[verifier::external_body]
fn set_shift_remove_index(s: &mut IndexSet<String>, i: usize) -> (r: Option<String>)
    ensures
        match r {
            Some(item) => {
                &&& i < set_items(*old(s)).len()
                &&& item@ == set_items(*old(s))[i as int]
                &&& set_items(*final(s)) == set_items(*old(s)).remove(i as int)
            },
            None => i >= set_items(*old(s)).len() && set_items(*final(s)) == set_items(*old(s)),
        },
{
    s.shift_remove_index(i)
}

/// `IndexSet::insert`: adds an item at the end unless an equal item is
/// there, in which case the set is unchanged; `true` when it was added.
#[verifier::external_body]
fn set_insert(s: &mut IndexSet<String>, item: String) -> (added: bool)
    ensures
        added == (index_of_item(set_items(*old(s)), item@) < 0),
        set_items(*final(s)) == if added {
            set_items(*old(s)).push(item@)
        } else {
            set_items(*old(s))
        },
{
    s.insert(item)
}

/// Which way to move in the history.
#[derive(Clone, Copy, PartialEq, Eq, Structural, Debug)]
pub enum Direction {
    Forward,
    Back,
    /// To the newest path.
    Top,
}

/// The paths that were opened, oldest first, with the one shown now.
pub struct History {
    max_items: usize,
    index: usize,
    items: IndexSet<String>,
}

/// The items after a path is pushed: a path that is there moves to the end,
/// a new one is appended and, when the history is full, the oldest item is
/// dropped. A history that holds no items stays empty.
pub open spec fn pushed_items(items: Seq<Seq<char>>, max: nat, item: Seq<char>) -> Seq<Seq<char>> {
    if max == 0 {
        items
    } else if index_of_item(items, item) >= 0 {
        items.remove(index_of_item(items, item)).push(item)
    } else if items.len() >= max {
        items.drop_first().push(item)
    } else {
        items.push(item)
    }
}

impl History {
    /// The paths, oldest first.
    pub closed spec fn spec_items(&self) -> Seq<Seq<char>> {
        set_items(self.items)
    }

    /// The position of the path shown now.
    pub closed spec fn spec_index(&self) -> nat {
        self.index as nat
    }

    /// How many paths the history keeps.
    pub closed spec fn spec_max_items(&self) -> nat {
        self.max_items as nat
    }

    /// The history's invariant: no path twice, no more paths than it keeps,
    /// and a position within them or just after them.
    pub open spec fn wf(&self) -> bool {
        &&& self.spec_items().no_duplicates()
        &&& self.spec_items().len() <= self.spec_max_items()
        &&& self.spec_index() <= self.spec_items().len()
    }

    /// The path shown now, if there is one.
    pub open spec fn spec_current(&self) -> Option<Seq<char>> {
        if self.spec_index() < self.spec_items().len() {
            Some(self.spec_items()[self.spec_index() as int])
        } else {
            None
        }
    }

    /// An empty history that keeps up to `max_items` paths.
    pub fn new(max_items: usize) -> (h: History)
        ensures
            h.wf(),
            h.spec_items() == Seq::<Seq<char>>::empty(),
            h.spec_index() == 0,
            h.spec_max_items() == max_items,
    {
        History { max_items, index: 0, items: set_new() }
    }

    /// Forgets every path; the limit stays.
    pub fn clear(&mut self)
        ensures
            final(self).wf(),
            final(self).spec_items() == Seq::<Seq<char>>::empty(),
            final(self).spec_index() == 0,
            final(self).spec_max_items() == old(self).spec_max_items(),
    {
        self.items = set_new();
        self.index = 0;
    }

    /// A history of the given paths, of which it keeps the first
    /// `max_items`; the last of them is shown.
    pub fn with_items(items: IndexSet<String>, max_items: usize) -> (h: History)
        ensures
            h.wf(),
            h.spec_items() == if max_items < set_items(items).len() {
                set_items(items).take(max_items as int)
            } else {
                set_items(items)
            },
            h.spec_index() == if h.spec_items().len() > 0 { h.spec_items().len() - 1 } else { 0 },
            h.spec_max_items() == max_items,
    {
        let mut items = items;
        set_truncate(&mut items, max_items);
        let n = set_len(&items);
        let index = if n > 0 { n - 1 } else { 0 };
        History { max_items, index, items }
    }

    /// The history that was saved, when one was found and the history keeps
    /// paths; else an empty one.
    pub fn restored(saved: Option<IndexSet<String>>, max_items: usize) -> (h: History)
        ensures
            h.wf(),
            h.spec_max_items() == max_items,
            match saved {
                Some(items) if max_items > 0 => {
                    &&& h.spec_items() == if max_items < set_items(items).len() {
                        set_items(items).take(max_items as int)
                    } else {
                        set_items(items)
                    }
                    &&& h.spec_index() == if h.spec_items().len() > 0 { h.spec_items().len() - 1 } else { 0 }
                },
                _ => h.spec_items().len() == 0 && h.spec_index() == 0,
            },
    {
        match saved {
            Some(items) => {
                if max_items > 0 {
                    History::with_items(items, max_items)
                } else {
                    History::new(max_items)
                }
            },
            None => History::new(max_items),
        }
    }

    /// The paths to save, oldest first; nothing is saved by a history that
    /// keeps no paths.
    pub fn persisted_paths(&self) -> (r: Option<Vec<String>>)
        ensures
            self.spec_max_items() == 0 ==> r is None,
            self.spec_max_items() > 0 ==> (r matches Some(v) && v@.map_values(|s: String| s@) == self.spec_items()),
    {
        if self.max_items == 0 {
            return None;
        }
        let v = self.items();
        assert(v@.map_values(|s: String| s@) =~= self.spec_items());
        Some(v)
    }

    /// Opens a path: it becomes the newest item and is shown. A history
    /// that keeps no items ignores it.
    pub fn push(&mut self, item: String)
        requires
            old(self).wf(),
        ensures
            final(self).wf(),
            final(self).spec_max_items() == old(self).spec_max_items(),
            final(self).spec_items() == pushed_items(
                old(self).spec_items(),
                old(self).spec_max_items(),
                item@,
            ),
            old(self).spec_max_items() > 0 ==> {
                &&& final(self).spec_items().len() > 0
                &&& final(self).spec_index() == final(self).spec_items().len() - 1
            },
            old(self).spec_max_items() == 0 ==> final(self).spec_index() == old(self).spec_index(),
    {
        if self.max_items == 0 {
            return;
        }
        let ghost items = self.spec_items();
        proof {
            lemma_index_of_item(items, item@);
        }
        let n = set_len(&self.items);
        if n > 0 {
            let is_last = match set_get_index(&self.items, n - 1) {
                Some(last) => *last == item,
                None => false,
            };
            if is_last {
                assert(items.remove(n - 1).push(item@) =~= items);
                self.index = n - 1;
                return;
            }
        }
        let removed = set_shift_remove(&mut self.items, &item);
        if !removed && set_len(&self.items) == self.max_items {
            set_shift_remove_index(&mut self.items, 0);
        }
        let ghost mid = set_items(self.items);
        proof {
            if removed {
                lemma_not_in_after_remove(items, item@);
                lemma_remove_no_duplicates(items, index_of_item(items, item@));
            } else if items.len() >= self.max_items {
                lemma_remove_no_duplicates(items, 0);
                lemma_absent_after_remove(items, item@, 0);
                assert(items.remove(0) =~= items.drop_first());
            }
            lemma_index_of_item(mid, item@);
        }
        set_insert(&mut self.items, item);
        proof {
            lemma_push_no_duplicates(mid, item@);
        }
        let n = set_len(&self.items);
        self.index = n - 1;
    }

    /// The paths, oldest first.
    pub fn items(&self) -> (v: Vec<String>)
        ensures
            v@.len() == self.spec_items().len(),
            forall|k: int| 0 <= k < v@.len() ==> v@[k]@ == self.spec_items()[k],
    {
        let n = set_len(&self.items);
        let mut v: Vec<String> = Vec::new();
        let mut k: usize = 0;
        while k < n
            invariant
                n == self.spec_items().len(),
                k <= n,
                v@.len() == k,
                forall|j: int| 0 <= j < k ==> v@[j]@ == self.spec_items()[j],
            decreases n - k,
        {
            match set_get_index(&self.items, k) {
                Some(item) => v.push(item.clone()),
                None => {},
            }
            k = k + 1;
        }
        v
    }

    /// How many paths the history keeps.
    pub fn max_items(&self) -> (n: usize)
        ensures
            n == self.spec_max_items(),
    {
        self.max_items
    }

    /// The path shown now.
    pub fn current(&self) -> (r: Option<&String>)
        ensures
            match r {
                Some(s) => self.spec_current() == Some(s@),
                None => self.spec_current() is None,
            },
    {
        set_get_index(&self.items, self.index)
    }

    /// Moves to the next newer path and shows it; `None`, and no move, at
    /// the newest.
    fn forward(&mut self) -> (r: Option<&String>)
        requires
            old(self).wf(),
        ensures
            final(self).wf(),
            final(self).spec_items() == old(self).spec_items(),
            final(self).spec_max_items() == old(self).spec_max_items(),
            final(self).spec_index() == moved_index(
                old(self).spec_index(),
                old(self).spec_items().len(),
                Direction::Forward,
            ),
            match r {
                Some(s) => moved(old(self).spec_index(), old(self).spec_items().len(), Direction::Forward)
                    && final(self).spec_current() == Some(s@),
                None => !moved(old(self).spec_index(), old(self).spec_items().len(), Direction::Forward),
            },
    {
        let n = set_len(&self.items);
        if self.index < n && n - self.index > 1 {
            self.index = self.index + 1;
            set_get_index(&self.items, self.index)
        } else {
            None
        }
    }

    /// Moves to the next older path and shows it; `None`, and no move, at
    /// the oldest.
    fn back(&mut self) -> (r: Option<&String>)
        requires
            old(self).wf(),
        ensures
            final(self).wf(),
            final(self).spec_items() == old(self).spec_items(),
            final(self).spec_max_items() == old(self).spec_max_items(),
            final(self).spec_index() == moved_index(
                old(self).spec_index(),
                old(self).spec_items().len(),
                Direction::Back,
            ),
            match r {
                Some(s) => moved(old(self).spec_index(), old(self).spec_items().len(), Direction::Back)
                    && final(self).spec_current() == Some(s@),
                None => !moved(old(self).spec_index(), old(self).spec_items().len(), Direction::Back),
            },
    {
        if self.index == 0 {
            return None;
        }
        let n = set_len(&self.items);
        if self.index - 1 < n {
            self.index = self.index - 1;
            set_get_index(&self.items, self.index)
        } else {
            None
        }
    }

    /// Moves to the newest path and shows it; `None`, and no move, when the
    /// newest path is the one shown or there is none.
    fn top(&mut self) -> (r: Option<&String>)
        requires
            old(self).wf(),
        ensures
            final(self).wf(),
            final(self).spec_items() == old(self).spec_items(),
            final(self).spec_max_items() == old(self).spec_max_items(),
            final(self).spec_index() == moved_index(
                old(self).spec_index(),
                old(self).spec_items().len(),
                Direction::Top,
            ),
            match r {
                Some(s) => moved(old(self).spec_index(), old(self).spec_items().len(), Direction::Top)
                    && final(self).spec_current() == Some(s@),
                None => !moved(old(self).spec_index(), old(self).spec_items().len(), Direction::Top),
            },
    {
        let n = set_len(&self.items);
        if n > 0 && self.index != n - 1 {
            self.index = n - 1;
            set_get_index(&self.items, self.index)
        } else {
            None
        }
    }

    /// Moves one path newer or older, or to the newest path, and shows it; `None`, and no move,
    /// when there is no path that way.
    pub fn navigate(&mut self, dir: Direction) -> (r: Option<&String>)
        requires
            old(self).wf(),
        ensures
            final(self).wf(),
            final(self).spec_items() == old(self).spec_items(),
            final(self).spec_max_items() == old(self).spec_max_items(),
            final(self).spec_index() == moved_index(old(self).spec_index(), old(self).spec_items().len(), dir),
            match r {
                Some(s) => moved(old(self).spec_index(), old(self).spec_items().len(), dir)
                    && final(self).spec_current() == Some(s@),
                None => !moved(old(self).spec_index(), old(self).spec_items().len(), dir),
            },
    {
        match dir {
            Direction::Forward => self.forward(),
            Direction::Back => self.back(),
            Direction::Top => self.top(),
        }
    }

    /// Deletes the path shown now and shows the one after it (`Forward`),
    /// the one before it (`Back`) or the newest one (`Top`); `None` when
    /// there was no path to delete, or none to show.
    pub fn delete(&mut self, dir: Direction) -> (r: Option<&String>)
        requires
            old(self).wf(),
        ensures
            final(self).wf(),
            final(self).spec_max_items() == old(self).spec_max_items(),
            old(self).spec_index() < old(self).spec_items().len() ==> {
                let items = old(self).spec_items().remove(old(self).spec_index() as int);
                &&& final(self).spec_items() == items
                &&& dir == Direction::Forward ==> final(self).spec_index() == old(self).spec_index()
                &&& dir == Direction::Back ==> final(self).spec_index() == moved_index(
                    old(self).spec_index(),
                    items.len(),
                    Direction::Back,
                )
                &&& dir == Direction::Top ==> final(self).spec_index() == moved_index(
                    old(self).spec_index(),
                    items.len(),
                    Direction::Top,
                )
            },
            old(self).spec_index() >= old(self).spec_items().len() ==> {
                &&& final(self).spec_items() == old(self).spec_items()
                &&& final(self).spec_index() == old(self).spec_index()
                &&& r is None
            },
            r matches Some(s) ==> final(self).spec_current() == Some(s@),
            r is Some <==> {
                &&& old(self).spec_index() < old(self).spec_items().len()
                &&& match dir {
                    Direction::Forward | Direction::Top => final(self).spec_current() is Some,
                    Direction::Back => moved(
                        old(self).spec_index(),
                        (old(self).spec_items().len() - 1) as nat,
                        Direction::Back,
                    ),
                }
            },
    {
        let ghost items = self.spec_items();
        match set_shift_remove_index(&mut self.items, self.index) {
            None => None,
            Some(_) => {
                proof {
                    lemma_remove_no_duplicates(items, self.index as int);
                }
                match dir {
                    Direction::Forward => set_get_index(&self.items, self.index),
                    Direction::Back => self.back(),
                    Direction::Top => {
                        let n = set_len(&self.items);
                        if n > 0 {
                            self.index = n - 1;
                            set_get_index(&self.items, self.index)
                        } else {
                            None
                        }
                    },
                }
            },
        }
    }
}

/// Whether a move from `index` among `len` paths finds a path.
pub open spec fn moved(index: nat, len: nat, dir: Direction) -> bool {
    match dir {
        Direction::Forward => index + 1 < len,
        Direction::Back => index >= 1 && index - 1 < len,
        Direction::Top => len > 0 && index + 1 != len,
    }
}

/// The position after a move: it changes only when the move finds a path.
pub open spec fn moved_index(index: nat, len: nat, dir: Direction) -> nat {
    if !moved(index, len, dir) {
        index
    } else {
        match dir {
            Direction::Forward => index + 1,
            Direction::Back => (index - 1) as nat,
            Direction::Top => (len - 1) as nat,
        }
    }
}

/// Pushing a path to a history that keeps paths makes it the newest path,
/// keeps every path unique and the history within its size, and keeps every
/// other path except the oldest one when the history was full and the path
/// is new.
pub proof fn law_push_makes_newest(items: Seq<Seq<char>>, max: nat, item: Seq<char>)
    requires
        items.no_duplicates(),
        items.len() <= max,
        max > 0,
    ensures
        pushed_items(items, max, item).last() == item,
        pushed_items(items, max, item).no_duplicates(),
        pushed_items(items, max, item).len() <= max,
        forall|k: int|
            0 <= k < items.len() && items[k] != item && (k > 0 || items.len() < max || items.contains(item))
                ==> pushed_items(items, max, item).contains(#[trigger] items[k]),
{
    lemma_index_of_item(items, item);
    let p = pushed_items(items, max, item);
    if index_of_item(items, item) >= 0 {
        let i = index_of_item(items, item);
        lemma_not_in_after_remove(items, item);
        lemma_remove_no_duplicates(items, i);
        lemma_push_no_duplicates(items.remove(i), item);
        assert forall|k: int|
            0 <= k < items.len() && items[k] != item implies p.contains(#[trigger] items[k]) by {
            let k2 = if k < i { k } else { k - 1 };
            assert(p[k2] == items[k]);
        }
    } else if items.len() >= max {
        lemma_remove_no_duplicates(items, 0);
        lemma_absent_after_remove(items, item, 0);
        assert(items.remove(0) =~= items.drop_first());
        lemma_push_no_duplicates(items.drop_first(), item);
        assert forall|k: int|
            0 < k < items.len() && items[k] != item implies p.contains(#[trigger] items[k]) by {
            assert(p[k - 1] == items[k]);
        }
    } else {
        lemma_push_no_duplicates(items, item);
        assert forall|k: int| 0 <= k < items.len() implies p.contains(#[trigger] items[k]) by {
            assert(p[k] == items[k]);
        }
    }
}

/// The paths other than `item`, in their order.
pub open spec fn others(items: Seq<Seq<char>>, item: Seq<char>) -> Seq<Seq<char>> {
    items.filter(|p: Seq<char>| p != item)
}

proof fn lemma_others_absent(items: Seq<Seq<char>>, item: Seq<char>)
    requires
        !items.contains(item),
    ensures
        others(items, item) == items,
    decreases items.len(),
{
    reveal(Seq::filter);
    if items.len() > 0 {
        assert(!items.drop_last().contains(item)) by {
            if items.drop_last().contains(item) {
                let k = choose|k: int| 0 <= k < items.drop_last().len() && items.drop_last()[k] == item;
                assert(items[k] == item);
            }
        }
        lemma_others_absent(items.drop_last(), item);
        assert(items.last() != item) by {
            assert(items[items.len() - 1] == items.last());
        }
        assert(items.drop_last().push(items.last()) =~= items);
    }
}

proof fn lemma_others_push(items: Seq<Seq<char>>, item: Seq<char>)
    ensures
        others(items.push(item), item) == others(items, item),
{
    reveal(Seq::filter);
    assert(items.push(item).drop_last() =~= items);
}

proof fn lemma_others_add(a: Seq<Seq<char>>, b: Seq<Seq<char>>, item: Seq<char>)
    ensures
        others(a + b, item) == others(a, item) + others(b, item),
{
    Seq::filter_distributes_over_add(a, b, |p: Seq<char>| p != item);
}

proof fn lemma_others_remove(items: Seq<Seq<char>>, item: Seq<char>)
    requires
        items.no_duplicates(),
        index_of_item(items, item) >= 0,
    ensures
        others(items, item) == items.remove(index_of_item(items, item)),
{
    lemma_index_of_item(items, item);
    let i = index_of_item(items, item);
    let a = items.take(i);
    let b = items.skip(i + 1);
    assert(a + seq![item] + b =~= items);
    assert(a + b =~= items.remove(i));
    lemma_not_in_after_remove(items, item);
    assert(!a.contains(item) && !b.contains(item)) by {
        if a.contains(item) {
            let k = choose|k: int| 0 <= k < a.len() && a[k] == item;
            assert(items.remove(i)[k] == item);
        }
        if b.contains(item) {
            let k = choose|k: int| 0 <= k < b.len() && b[k] == item;
            assert(items.remove(i)[i + k] == item);
        }
    }
    lemma_others_add(a + seq![item], b, item);
    lemma_others_add(a, seq![item], item);
    lemma_others_push(Seq::<Seq<char>>::empty(), item);
    assert(Seq::<Seq<char>>::empty().push(item) =~= seq![item]);
    assert(others(Seq::<Seq<char>>::empty(), item) =~= Seq::<Seq<char>>::empty()) by {
        reveal(Seq::filter);
    }
    lemma_others_absent(a, item);
    lemma_others_absent(b, item);
    assert(a + Seq::<Seq<char>>::empty() =~= a);
}

/// Pushing a path keeps the other paths in their order: they are the ones
/// that were there, but the oldest when the history was full and the path
/// is new.
pub proof fn law_push_keeps_order(items: Seq<Seq<char>>, max: nat, item: Seq<char>)
    requires
        items.no_duplicates(),
        items.len() <= max,
        max > 0,
    ensures
        others(pushed_items(items, max, item), item) == if !items.contains(item) && items.len() == max {
            others(items.drop_first(), item)
        } else {
            others(items, item)
        },
{
    lemma_index_of_item(items, item);
    let i = index_of_item(items, item);
    if i >= 0 {
        let r = items.remove(i);
        lemma_not_in_after_remove(items, item);
        lemma_others_push(r, item);
        lemma_others_absent(r, item);
        lemma_others_remove(items, item);
        assert(items.contains(item)) by {
            assert(items[i] == item);
        }
    } else {
        if items.len() >= max {
            assert(!items.drop_first().contains(item)) by {
                if items.drop_first().contains(item) {
                    let k = choose|k: int| 0 <= k < items.drop_first().len() && items.drop_first()[k] == item;
                    assert(items[k + 1] == item);
                }
            }
            lemma_others_push(items.drop_first(), item);
        } else {
            lemma_others_push(items, item);
        }
    }
}

/// Pushing a path to a history that keeps paths gives the other paths, in
/// the order they had, followed by the path; the oldest path is dropped
/// first when the history was full and the path is new. The result holds
/// each path once and stays within the size. A history that keeps no paths
/// stays as it is.
pub proof fn law_push(items: Seq<Seq<char>>, max: nat, item: Seq<char>)
    requires
        items.no_duplicates(),
        items.len() <= max,
    ensures
        max == 0 ==> pushed_items(items, max, item) == items,
        max > 0 ==> {
            let base = if !items.contains(item) && items.len() == max { items.drop_first() } else { items };
            &&& pushed_items(items, max, item) == others(base, item).push(item)
            &&& pushed_items(items, max, item).no_duplicates()
            &&& pushed_items(items, max, item).len() <= max
        },
{
    if max > 0 {
        law_push_makes_newest(items, max, item);
        law_push_keeps_order(items, max, item);
        let p = pushed_items(items, max, item);
        let front = p.drop_last();
        assert(front.push(item) =~= p);
        assert(!front.contains(item)) by {
            if front.contains(item) {
                let k = choose|k: int| 0 <= k < front.len() && front[k] == item;
                assert(p[k] == p[p.len() - 1]);
            }
        }
        lemma_others_push(front, item);
        lemma_others_absent(front, item);
    }
}

/// From a path that is shown, going back and then forward returns to it,
/// and so does going forward and then back.
pub proof fn law_back_and_forward_return(index: nat, len: nat)
    requires
        index < len,
    ensures
        moved(index, len, Direction::Back) ==> {
            let back = moved_index(index, len, Direction::Back);
            &&& moved(back, len, Direction::Forward)
            &&& moved_index(back, len, Direction::Forward) == index
        },
        moved(index, len, Direction::Forward) ==> {
            let fwd = moved_index(index, len, Direction::Forward);
            &&& moved(fwd, len, Direction::Back)
            &&& moved_index(fwd, len, Direction::Back) == index
        },
{
}

proof fn lemma_index_of_item(items: Seq<Seq<char>>, item: Seq<char>)
    ensures
        -1 <= index_of_item(items, item) < items.len(),
        index_of_item(items, item) >= 0 ==> items[index_of_item(items, item)] == item,
        index_of_item(items, item) < 0 ==> !items.contains(item),
    decreases items.len(),
{
    if items.len() > 0 && items.last() != item {
        lemma_index_of_item(items.drop_last(), item);
        if index_of_item(items, item) < 0 {
            assert forall|k: int| 0 <= k < items.len() implies items[k] != item by {
                if k < items.len() - 1 {
                    assert(items.drop_last()[k] == items[k]);
                }
            }
        }
    }
}

proof fn lemma_remove_no_duplicates(items: Seq<Seq<char>>, i: int)
    requires
        items.no_duplicates(),
        0 <= i < items.len(),
    ensures
        items.remove(i).no_duplicates(),
        !items.remove(i).contains(items[i]),
{
    let r = items.remove(i);
    assert forall|a: int, b: int| 0 <= a < r.len() && 0 <= b < r.len() && a != b implies r[a] != r[b] by {
        let a2 = if a < i { a } else { a + 1 };
        let b2 = if b < i { b } else { b + 1 };
        assert(r[a] == items[a2] && r[b] == items[b2]);
    }
    assert forall|k: int| 0 <= k < r.len() implies r[k] != items[i] by {
        let k2 = if k < i { k } else { k + 1 };
        assert(r[k] == items[k2]);
    }
}

proof fn lemma_not_in_after_remove(items: Seq<Seq<char>>, item: Seq<char>)
    requires
        items.no_duplicates(),
        index_of_item(items, item) >= 0,
    ensures
        !items.remove(index_of_item(items, item)).contains(item),
{
    lemma_index_of_item(items, item);
    lemma_remove_no_duplicates(items, index_of_item(items, item));
}

proof fn lemma_absent_after_remove(items: Seq<Seq<char>>, item: Seq<char>, i: int)
    requires
        !items.contains(item),
        0 <= i < items.len(),
    ensures
        !items.remove(i).contains(item),
{
    let r = items.remove(i);
    assert forall|k: int| 0 <= k < r.len() implies r[k] != item by {
        let k2 = if k < i { k } else { k + 1 };
        assert(r[k] == items[k2]);
    }
}

proof fn lemma_push_no_duplicates(items: Seq<Seq<char>>, item: Seq<char>)
    requires
        items.no_duplicates(),
        !items.contains(item),
    ensures
        items.push(item).no_duplicates(),
{
    let p = items.push(item);
    assert forall|a: int, b: int| 0 <= a < p.len() && 0 <= b < p.len() && a != b implies p[a] != p[b] by {
        if a < items.len() && b < items.len() {
            assert(p[a] == items[a] && p[b] == items[b]);
        } else if a < items.len() {
            assert(p[a] == items[a]);
        } else if b < items.len() {
            assert(p[b] == items[b]);
        }
    }
}

} // verus!
