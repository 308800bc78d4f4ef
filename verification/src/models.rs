//! Domain entities and collection management logic.

use vstd::prelude::*;

verus! {

/// How urgent an item is.
#[derive(Clone, Copy, Debug, PartialEq, Eq, Structural)]
pub enum Priority {
    Low,
    Medium,
    High,
}

impl Default for Priority {
    fn default() -> (p: Self)
        ensures
            p == Priority::Medium,
    {
        Priority::Medium
    }
}

/// The display name of a priority.
pub open spec fn priority_label(p: Priority) -> Seq<char> {
    match p {
        Priority::Low => "Low"@,
        Priority::Medium => "Medium"@,
        Priority::High => "High"@,
    }
}

impl Priority {
    /// The display name: `Low`, `Medium` or `High`.
    pub fn label(self) -> (r: &'static str)
        ensures
            r@ == priority_label(self),
            self == Priority::Low ==> r@ == "Low"@,
            self == Priority::Medium ==> r@ == "Medium"@,
            self == Priority::High ==> r@ == "High"@,
    {
        match self {
            Priority::Low => "Low",
            Priority::Medium => "Medium",
            Priority::High => "High",
        }
    }
}

/// One tracked item.
#[derive(Clone, Debug, PartialEq, Eq)]
pub struct Item {
    pub id: u64,
    pub title: String,
    pub description: String,
    pub priority: Priority,
    pub completed: bool,
}

/// The mathematical value of an [`Item`]: its fields, with the texts as character sequences.
pub struct ItemView {
    pub id: u64,
    pub title: Seq<char>,
    pub description: Seq<char>,
    pub priority: Priority,
    pub completed: bool,
}

impl View for Item {
    type V = ItemView;

    open spec fn view(&self) -> ItemView {
        ItemView {
            id: self.id,
            title: self.title@,
            description: self.description@,
            priority: self.priority,
            completed: self.completed,
        }
    }
}

/// A fresh, not yet completed item.
pub open spec fn new_item(id: u64, title: Seq<char>, description: Seq<char>, priority: Priority) -> ItemView {
    ItemView { id, title, description, priority, completed: false }
}

impl Item {
    /// A new item, not completed.
    pub fn new(id: u64, title: &str, description: &str, priority: Priority) -> (item: Item)
        ensures
            item@ == new_item(id, title@, description@, priority),
    {
        Item {
            id,
            title: title.to_owned(),
            description: description.to_owned(),
            priority,
            completed: false,
        }
    }
}

/// The items of a collection together with the id the next added item receives.
#[derive(Clone, Debug, PartialEq, Eq)]
pub struct ItemCollection {
    pub items: Vec<Item>,
    pub next_id: u64,
}

/// The mathematical value of an [`ItemCollection`].
pub struct CollectionView {
    pub items: Seq<ItemView>,
    pub next_id: u64,
}

/// The views of a sequence of items.
pub open spec fn items_view(items: Seq<Item>) -> Seq<ItemView> {
    items.map_values(|i: Item| i@)
}

impl View for ItemCollection {
    type V = CollectionView;

    open spec fn view(&self) -> CollectionView {
        CollectionView { items: items_view(self.items@), next_id: self.next_id }
    }
}

// ---------------------------------------------------------------- the model of each operation

/// `i` is the position of the first item of `s` with id `id`.
pub open spec fn is_first_with_id(s: Seq<ItemView>, id: u64, i: int) -> bool {
    &&& 0 <= i < s.len()
    &&& s[i].id == id
    &&& forall|j: int| 0 <= j < i ==> (#[trigger] s[j]).id != id
}

/// Some item of `s` has id `id`.
pub open spec fn has_id(s: Seq<ItemView>, id: u64) -> bool {
    exists|i: int| 0 <= i < s.len() && (#[trigger] s[i]).id == id
}

/// The position of the first item of `s` with id `id` (meaningful when [`has_id`] holds).
pub open spec fn first_with_id(s: Seq<ItemView>, id: u64) -> int {
    choose|i: int| is_first_with_id(s, id, i)
}

/// `v` with its completion flag flipped.
pub open spec fn flipped(v: ItemView) -> ItemView {
    ItemView { completed: !v.completed, ..v }
}

/// `s` without the first item with id `id` (unchanged if there is none).
pub open spec fn removed(s: Seq<ItemView>, id: u64) -> Seq<ItemView> {
    if has_id(s, id) {
        s.remove(first_with_id(s, id))
    } else {
        s
    }
}

/// `s` with the completion flag of the first item with id `id` flipped (unchanged if there
/// is none).
pub open spec fn toggled(s: Seq<ItemView>, id: u64) -> Seq<ItemView> {
    if has_id(s, id) {
        let k = first_with_id(s, id);
        s.update(k, flipped(s[k]))
    } else {
        s
    }
}

/// The completed items of `s`, in order.
pub open spec fn completed_items(s: Seq<ItemView>) -> Seq<ItemView>
    decreases s.len(),
{
    if s.len() == 0 {
        seq![]
    } else if s.last().completed {
        completed_items(s.drop_last()).push(s.last())
    } else {
        completed_items(s.drop_last())
    }
}

/// The items of `s` that are not completed, in order.
pub open spec fn pending_items(s: Seq<ItemView>) -> Seq<ItemView>
    decreases s.len(),
{
    if s.len() == 0 {
        seq![]
    } else if s.last().completed {
        pending_items(s.drop_last())
    } else {
        pending_items(s.drop_last()).push(s.last())
    }
}

/// The collection after adding a new item under the next id.
pub open spec fn added(c: CollectionView, title: Seq<char>, description: Seq<char>, priority: Priority) -> CollectionView {
    CollectionView {
        items: c.items.push(new_item(c.next_id, title, description, priority)),
        next_id: (c.next_id + 1) as u64,
    }
}

/// The three sample items a fresh collection starts with.
pub open spec fn sample_items() -> Seq<ItemView> {
    seq![
        new_item(
            1,
            "Explore Cross-Platform State Persistence"@,
            "State is automatically saved across browser sessions and desktop restarts."@,
            Priority::High,
        ),
        new_item(
            2,
            "Test Theme Toggle"@,
            "Switch between dark and warm light modes with high contrast readability."@,
            Priority::Medium,
        ),
        new_item(
            3,
            "Verify Offline PWA Capabilities"@,
            "Service workers cache static assets for offline usage on mobile and web."@,
            Priority::Low,
        ),
    ]
}

/// The sample collection: the sample items, and 4 as the next id.
pub open spec fn sample_collection() -> CollectionView {
    CollectionView { items: sample_items(), next_id: 4 }
}

/// The empty collection that numbers from 1.
pub open spec fn empty_collection() -> CollectionView {
    CollectionView { items: seq![], next_id: 1 }
}

// ---------------------------------------------------------------- helper lemmas

proof fn lemma_first_exists(s: Seq<ItemView>, id: u64, i: int)
    requires
        0 <= i < s.len(),
        s[i].id == id,
    ensures
        exists|k: int| is_first_with_id(s, id, k),
    decreases i,
{
    if exists|j: int| 0 <= j < i && (#[trigger] s[j]).id == id {
        let j = choose|j: int| 0 <= j < i && (#[trigger] s[j]).id == id;
        lemma_first_exists(s, id, j);
    } else {
        assert(is_first_with_id(s, id, i));
    }
}

/// The first position with a given id is unique, and [`first_with_id`] names it.
pub proof fn lemma_first_with_id(s: Seq<ItemView>, id: u64, i: int)
    requires
        is_first_with_id(s, id, i),
    ensures
        has_id(s, id),
        first_with_id(s, id) == i,
{
    let k = first_with_id(s, id);
    assert(s[i].id == id);
    assert(is_first_with_id(s, id, k));
    if k < i {
        assert(s[k].id == id);
    }
    if i < k {
        assert(s[i].id == id);
    }
}

proof fn lemma_has_id_first(s: Seq<ItemView>, id: u64)
    requires
        has_id(s, id),
    ensures
        is_first_with_id(s, id, first_with_id(s, id)),
{
    let i = choose|i: int| 0 <= i < s.len() && (#[trigger] s[i]).id == id;
    lemma_first_exists(s, id, i);
}

// ---------------------------------------------------------------- the collection

impl Default for ItemCollection {
    /// The sample collection.
    fn default() -> (c: Self)
        ensures
            c@ == sample_collection(),
    {
        let mut collection = ItemCollection { items: Vec::new(), next_id: 1 };
        collection.load_samples();
        collection
    }
}

impl ItemCollection {
    /// Replaces the contents with the three sample items; the next id becomes 4.
    pub fn load_samples(&mut self)
        ensures
            final(self)@ == sample_collection(),
    {
        let mut items: Vec<Item> = Vec::new();
        items.push(
            Item::new(
                1,
                "Explore Cross-Platform State Persistence",
                "State is automatically saved across browser sessions and desktop restarts.",
                Priority::High,
            ),
        );
        items.push(
            Item::new(
                2,
                "Test Theme Toggle",
                "Switch between dark and warm light modes with high contrast readability.",
                Priority::Medium,
            ),
        );
        items.push(
            Item::new(
                3,
                "Verify Offline PWA Capabilities",
                "Service workers cache static assets for offline usage on mobile and web.",
                Priority::Low,
            ),
        );
        self.items = items;
        self.next_id = 4;
        assert(items_view(self.items@) == sample_items());
    }

    /// Appends a new, not completed item under the next id and returns that id.
    pub fn add(&mut self, title: &str, description: &str, priority: Priority) -> (id: u64)
        requires
            old(self).next_id < u64::MAX,
        ensures
            id == old(self).next_id,
            final(self)@ == added(old(self)@, title@, description@, priority),
    {
        let id = self.next_id;
        self.next_id = self.next_id + 1;
        self.items.push(Item::new(id, title, description, priority));
        assert(items_view(self.items@) == items_view(old(self).items@).push(
            new_item(id, title@, description@, priority),
        ));
        id
    }

    /// The position of the first item with id `id`, if any.
    fn position_of(&self, id: u64) -> (r: Option<usize>)
        ensures
            match r {
                Some(i) => is_first_with_id(self@.items, id, i as int),
                None => !has_id(self@.items, id),
            },
    {
        let mut i: usize = 0;
        while i < self.items.len()
            invariant
                i <= self.items.len(),
                forall|j: int| 0 <= j < i ==> (#[trigger] self@.items[j]).id != id,
            decreases self.items.len() - i,
        {
            if self.items[i].id == id {
                return Some(i);
            }
            i = i + 1;
        }
        None
    }

    /// Removes the first item with id `id`; tells whether there was one.
    pub fn remove(&mut self, id: u64) -> (found: bool)
        ensures
            found == has_id(old(self)@.items, id),
            final(self)@.items == removed(old(self)@.items, id),
            final(self)@.next_id == old(self)@.next_id,
    {
        match self.position_of(id) {
            Some(i) => {
                proof {
                    lemma_first_with_id(self@.items, id, i as int);
                }
                self.items.remove(i);
                assert(items_view(self.items@) == items_view(old(self).items@).remove(i as int));
                true
            },
            None => false,
        }
    }

    /// Flips the completion flag of the first item with id `id`, if there is one.
    pub fn toggle(&mut self, id: u64)
        ensures
            final(self)@.items == toggled(old(self)@.items, id),
            final(self)@.next_id == old(self)@.next_id,
    {
        match self.position_of(id) {
            Some(i) => {
                proof {
                    lemma_first_with_id(self@.items, id, i as int);
                }
                let mut item = self.items.remove(i);
                item.completed = !item.completed;
                self.items.insert(i, item);
                assert(items_view(self.items@) == items_view(old(self).items@).update(
                    i as int,
                    flipped(old(self)@.items[i as int]),
                ));
            },
            None => {},
        }
    }

    /// Removes all items; numbering starts again at 1.
    pub fn reset(&mut self)
        ensures
            final(self)@ == empty_collection(),
    {
        self.items.clear();
        self.next_id = 1;
        assert(items_view(self.items@) == Seq::<ItemView>::empty());
    }

    /// The number of completed items.
    pub fn completed_count(&self) -> (n: usize)
        ensures
            n == completed_items(self@.items).len(),
    {
        let ghost s = self@.items;
        let mut n: usize = 0;
        let mut i: usize = 0;
        assert(s.take(0) == Seq::<ItemView>::empty());
        while i < self.items.len()
            invariant
                i <= self.items.len(),
                s == self@.items,
                n == completed_items(s.take(i as int)).len(),
                n <= i,
            decreases self.items.len() - i,
        {
            assert(s.take(i + 1).drop_last() == s.take(i as int));
            assert(s.take(i + 1).last() == s[i as int]);
            if self.items[i].completed {
                n = n + 1;
            }
            i = i + 1;
        }
        assert(s.take(i as int) == s);
        n
    }

    /// The number of items.
    pub fn total_count(&self) -> (n: usize)
        ensures
            n == self@.items.len(),
    {
        self.items.len()
    }

    /// Removes every completed item, keeping the order of the others.
    pub fn clear_completed(&mut self)
        ensures
            final(self)@.items == pending_items(old(self)@.items),
            final(self)@.next_id == old(self)@.next_id,
    {
        let ghost s = old(self)@.items;
        let mut i: usize = 0;
        let ghost mut j: int = 0;
        assert(s.take(0) == Seq::<ItemView>::empty());
        assert(s.skip(0) == s);
        while i < self.items.len()
            invariant
                0 <= j <= s.len(),
                i == pending_items(s.take(j)).len(),
                self@.items == pending_items(s.take(j)) + s.skip(j),
                self.next_id == old(self).next_id,
            decreases s.len() - j,
        {
            let ghost before_vec = self.items@;
            let ghost before = self@.items;
            proof {
                assert(before[i as int] == s.skip(j)[0]);
                assert(s.take(j + 1).drop_last() == s.take(j));
                assert(s.take(j + 1).last() == s[j]);
                assert(s.skip(j).drop_first() == s.skip(j + 1));
            }
            if self.items[i].completed {
                self.items.remove(i);
                proof {
                    assert(items_view(before_vec.remove(i as int)) == before.remove(i as int));
                    assert(before.remove(i as int) == pending_items(s.take(j)) + s.skip(j + 1));
                }
            } else {
                i = i + 1;
                proof {
                    assert(pending_items(s.take(j + 1)) == pending_items(s.take(j)).push(s[j]));
                    assert(before == pending_items(s.take(j + 1)) + s.skip(j + 1));
                }
            }
            proof {
                j = j + 1;
            }
        }
        assert(s.take(j) == s);
        assert(s.skip(j) == Seq::<ItemView>::empty());
    }
}

// ---------------------------------------------------------------- laws of the collection

/// Every item's id is below the id the collection hands out next.
pub open spec fn ids_below_next(c: CollectionView) -> bool {
    forall|i: int| 0 <= i < c.items.len() ==> (#[trigger] c.items[i]).id < c.next_id
}

proof fn lemma_toggled_first(s: Seq<ItemView>, id: u64)
    requires
        has_id(s, id),
    ensures
        is_first_with_id(s, id, first_with_id(s, id)),
        is_first_with_id(toggled(s, id), id, first_with_id(s, id)),
        has_id(toggled(s, id), id),
        first_with_id(toggled(s, id), id) == first_with_id(s, id),
{
    lemma_has_id_first(s, id);
    let k = first_with_id(s, id);
    let t = toggled(s, id);
    assert forall|j: int| 0 <= j < k implies (#[trigger] t[j]).id != id by {
        assert(s[j].id != id);
    }
    assert(is_first_with_id(t, id, k));
    lemma_first_with_id(t, id, k);
}

/// Toggling an item twice gives back the items as they were.
pub proof fn law_toggle_twice_restores(s: Seq<ItemView>, id: u64)
    ensures
        toggled(toggled(s, id), id) == s,
{
    if has_id(s, id) {
        lemma_toggled_first(s, id);
        let k = first_with_id(s, id);
        assert(toggled(toggled(s, id), id) =~= s);
    }
}

/// Adding an item and then removing the id that the addition returned gives back the items
/// as they were, when no item had that id before.
pub proof fn law_add_then_remove_restores(
    c: CollectionView,
    title: Seq<char>,
    description: Seq<char>,
    priority: Priority,
)
    requires
        !has_id(c.items, c.next_id),
    ensures
        removed(added(c, title, description, priority).items, c.next_id) == c.items,
{
    let s = added(c, title, description, priority).items;
    let n = c.items.len() as int;
    assert forall|j: int| 0 <= j < n implies (#[trigger] s[j]).id != c.next_id by {
        assert(s[j] == c.items[j]);
    }
    assert(is_first_with_id(s, c.next_id, n));
    lemma_first_with_id(s, c.next_id, n);
    assert(s.remove(n) =~= c.items);
}

/// Adding, removing, toggling and clearing completed items all keep every id below the next
/// id, so an id that `add` returns names no other item.
pub proof fn law_ids_stay_below_next(
    c: CollectionView,
    title: Seq<char>,
    description: Seq<char>,
    priority: Priority,
    id: u64,
)
    requires
        ids_below_next(c),
        c.next_id < u64::MAX,
    ensures
        ids_below_next(added(c, title, description, priority)),
        !has_id(c.items, c.next_id),
        ids_below_next(CollectionView { items: removed(c.items, id), next_id: c.next_id }),
        ids_below_next(CollectionView { items: toggled(c.items, id), next_id: c.next_id }),
        ids_below_next(CollectionView { items: pending_items(c.items), next_id: c.next_id }),
{
    let a = added(c, title, description, priority);
    assert forall|i: int| 0 <= i < a.items.len() implies (#[trigger] a.items[i]).id < a.next_id by {
        if i < c.items.len() {
            assert(a.items[i] == c.items[i]);
        }
    }
    if has_id(c.items, c.next_id) {
        let i = choose|i: int| 0 <= i < c.items.len() && (#[trigger] c.items[i]).id == c.next_id;
        assert(c.items[i].id < c.next_id);
    }
    if has_id(c.items, id) {
        lemma_has_id_first(c.items, id);
        let k = first_with_id(c.items, id);
        let r = removed(c.items, id);
        assert forall|i: int| 0 <= i < r.len() implies (#[trigger] r[i]).id < c.next_id by {
            if i < k {
                assert(r[i] == c.items[i]);
            } else {
                assert(r[i] == c.items[i + 1]);
            }
        }
        let t = toggled(c.items, id);
        assert forall|i: int| 0 <= i < t.len() implies (#[trigger] t[i]).id < c.next_id by {
            assert(t[i].id == c.items[i].id);
        }
    }
    lemma_pending_subset(c.items, c.next_id);
}

proof fn lemma_pending_subset(s: Seq<ItemView>, bound: u64)
    requires
        forall|i: int| 0 <= i < s.len() ==> (#[trigger] s[i]).id < bound,
    ensures
        forall|i: int| 0 <= i < pending_items(s).len() ==> (#[trigger] pending_items(s)[i]).id < bound,
    decreases s.len(),
{
    if s.len() > 0 {
        let d = s.drop_last();
        assert forall|i: int| 0 <= i < d.len() implies (#[trigger] d[i]).id < bound by {
            assert(d[i] == s[i]);
        }
        lemma_pending_subset(d, bound);
    }
}

/// Every item is either completed or pending: the two counts add up to the total.
pub proof fn law_completed_plus_pending(s: Seq<ItemView>)
    ensures
        completed_items(s).len() + pending_items(s).len() == s.len(),
    decreases s.len(),
{
    if s.len() > 0 {
        law_completed_plus_pending(s.drop_last());
    }
}

/// After clearing completed items none is completed, and exactly the completed ones are gone.
pub proof fn law_clear_completed_counts(s: Seq<ItemView>)
    ensures
        completed_items(pending_items(s)).len() == 0,
        pending_items(s).len() == s.len() - completed_items(s).len(),
    decreases s.len(),
{
    law_completed_plus_pending(s);
    if s.len() > 0 {
        law_clear_completed_counts(s.drop_last());
        let p = pending_items(s.drop_last());
        if !s.last().completed {
            assert(pending_items(s) == p.push(s.last()));
            assert(p.push(s.last()).drop_last() == p);
        }
    }
}

/// Adding an item raises the total by one and leaves the number of completed items alone.
pub proof fn law_add_counts(c: CollectionView, title: Seq<char>, description: Seq<char>, priority: Priority)
    ensures
        added(c, title, description, priority).items.len() == c.items.len() + 1,
        completed_items(added(c, title, description, priority).items) == completed_items(c.items),
{
    let s = added(c, title, description, priority).items;
    assert(s.drop_last() == c.items);
}

proof fn lemma_completed_update(s: Seq<ItemView>, k: int, v: ItemView)
    requires
        0 <= k < s.len(),
    ensures
        completed_items(s.update(k, v)).len() + (if s[k].completed { 1int } else { 0int })
            == completed_items(s).len() + (if v.completed { 1int } else { 0int }),
    decreases s.len(),
{
    let u = s.update(k, v);
    if k == s.len() - 1 {
        assert(u.drop_last() == s.drop_last());
    } else {
        assert(u.drop_last() == s.drop_last().update(k, v));
        lemma_completed_update(s.drop_last(), k, v);
    }
}

proof fn lemma_completed_remove(s: Seq<ItemView>, k: int)
    requires
        0 <= k < s.len(),
    ensures
        completed_items(s.remove(k)).len() + (if s[k].completed { 1int } else { 0int })
            == completed_items(s).len(),
    decreases s.len(),
{
    let r = s.remove(k);
    if k == s.len() - 1 {
        assert(r == s.drop_last());
    } else {
        assert(r.drop_last() == s.drop_last().remove(k));
        assert(r.last() == s.last());
        lemma_completed_remove(s.drop_last(), k);
    }
}

/// Toggling a present id changes the number of completed items by exactly one (up for a
/// pending item, down for a completed one) and keeps the total; toggling an absent id
/// changes nothing.
pub proof fn law_toggle_counts(s: Seq<ItemView>, id: u64)
    ensures
        toggled(s, id).len() == s.len(),
        !has_id(s, id) ==> toggled(s, id) == s,
        has_id(s, id) && !s[first_with_id(s, id)].completed ==> completed_items(toggled(s, id)).len()
            == completed_items(s).len() + 1,
        has_id(s, id) && s[first_with_id(s, id)].completed ==> completed_items(toggled(s, id)).len()
            + 1 == completed_items(s).len(),
{
    if has_id(s, id) {
        lemma_has_id_first(s, id);
        let k = first_with_id(s, id);
        lemma_completed_update(s, k, flipped(s[k]));
    }
}

/// Removing a present id lowers the total by one, and the completed count by one exactly when
/// the removed item was completed; removing an absent id changes nothing.
pub proof fn law_remove_counts(s: Seq<ItemView>, id: u64)
    ensures
        !has_id(s, id) ==> removed(s, id) == s,
        has_id(s, id) ==> removed(s, id).len() + 1 == s.len(),
        has_id(s, id) ==> completed_items(removed(s, id)).len() + (if s[first_with_id(
            s,
            id,
        )].completed {
            1int
        } else {
            0int
        }) == completed_items(s).len(),
{
    if has_id(s, id) {
        lemma_has_id_first(s, id);
        lemma_completed_remove(s, first_with_id(s, id));
    }
}

/// The sample collection keeps its ids below the next id, and none of its items is completed.
pub proof fn law_samples_well_formed()
    ensures
        ids_below_next(sample_collection()),
        completed_items(sample_items()).len() == 0,
        sample_items().len() == 3,
{
    let s = sample_items();
    let s2 = s.drop_last();
    let s1 = s2.drop_last();
    let s0 = s1.drop_last();
    assert(s0 =~= Seq::<ItemView>::empty());
    assert(completed_items(s0).len() == 0);
    assert(!s1.last().completed);
    assert(completed_items(s1).len() == 0);
    assert(!s2.last().completed);
    assert(completed_items(s2).len() == 0);
    assert(!s.last().completed);
}

} // verus!
