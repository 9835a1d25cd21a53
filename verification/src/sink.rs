//! What a publishing destination is handed, what it may answer, and the
//! batch of items that one cycle publishes.

use crate::select::{SyndicationFormat, SyndicationView};
use crate::text::views;
use crate::tracker::SyndicationTracker;
use vstd::hash_map::StringHashMap;
use vstd::prelude::*;
use vstd::string::StringExecFns;

verus! {

/// Why a destination could not be set up or could not publish.
#[derive(Clone, Debug, PartialEq, Eq)]
pub enum SinkError {
    /// A read or a write failed.
    Io(String),
    /// An external command could not be run or reported failure.
    CommandFailed(String),
    /// The destination's configuration is unusable.
    Config(String),
    /// The content of an item could not be produced.
    Serialization(String),
}

/// Mathematical model of a [`SinkError`].
pub enum SinkErrorView {
    Io(Seq<char>),
    CommandFailed(Seq<char>),
    Config(Seq<char>),
    Serialization(Seq<char>),
}

impl View for SinkError {
    type V = SinkErrorView;

    open spec fn view(&self) -> SinkErrorView {
        match self {
            SinkError::Io(detail) => SinkErrorView::Io(detail@),
            SinkError::CommandFailed(detail) => SinkErrorView::CommandFailed(detail@),
            SinkError::Config(detail) => SinkErrorView::Config(detail@),
            SinkError::Serialization(detail) => SinkErrorView::Serialization(detail@),
        }
    }
}

/// The line that describes an error: the kind of failure, then its detail.
pub open spec fn message_of(error: SinkErrorView) -> Seq<char> {
    match error {
        SinkErrorView::Io(detail) => "IO error: "@ + detail,
        SinkErrorView::CommandFailed(detail) => "Command execution failed: "@ + detail,
        SinkErrorView::Config(detail) => "Configuration error: "@ + detail,
        SinkErrorView::Serialization(detail) => "Serialization error: "@ + detail,
    }
}

impl SinkError {
    /// The error as a line for a log: the kind of failure, then its detail.
    pub fn message(&self) -> (r: String)
        ensures
            r@ == message_of(self@),
    {
        match self {
            SinkError::Io(detail) => String::from_str("IO error: ").concat(detail.as_str()),
            SinkError::CommandFailed(detail) => String::from_str(
                "Command execution failed: ",
            ).concat(detail.as_str()),
            SinkError::Config(detail) => String::from_str("Configuration error: ").concat(
                detail.as_str(),
            ),
            SinkError::Serialization(detail) => String::from_str("Serialization error: ").concat(
                detail.as_str(),
            ),
        }
    }

    /// A copy of this error.
    pub fn duplicate(&self) -> (r: SinkError)
        ensures
            r@ == self@,
    {
        match self {
            SinkError::Io(detail) => SinkError::Io(detail.clone()),
            SinkError::CommandFailed(detail) => SinkError::CommandFailed(detail.clone()),
            SinkError::Config(detail) => SinkError::Config(detail.clone()),
            SinkError::Serialization(detail) => SinkError::Serialization(detail.clone()),
        }
    }
}

/// Whether some entry bears `id`.
pub open spec fn holds(entries: Seq<SyndicationView>, id: Seq<char>) -> bool {
    exists|i: int| 0 <= i < entries.len() && (#[trigger] entries[i]).id == id
}

/// The place of an entry that bears `id`, if there is one.
pub open spec fn place_of(entries: Seq<SyndicationView>, id: Seq<char>) -> int {
    choose|i: int| 0 <= i < entries.len() && (#[trigger] entries[i]).id == id
}

/// Whether no two entries bear the same identifier.
pub open spec fn distinct_ids(entries: Seq<SyndicationView>) -> bool {
    forall|i: int, j: int|
        0 <= i < entries.len() && 0 <= j < entries.len() && (#[trigger] entries[i]).id == (
        #[trigger] entries[j]).id ==> i == j
}

/// The identifiers of the entries, in order.
pub open spec fn entry_ids(entries: Seq<SyndicationView>) -> Seq<Seq<char>> {
    entries.map_values(|e: SyndicationView| e.id)
}

/// `batch`, and after it `item` unless the batch holds its identifier or
/// the identifier is published.
pub open spec fn with_fresh(
    batch: Seq<SyndicationView>,
    item: SyndicationView,
    published: Set<Seq<char>>,
) -> Seq<SyndicationView> {
    if published.contains(item.id) || holds(batch, item.id) {
        batch
    } else {
        batch.push(item)
    }
}

/// The batch that a cycle publishes: the items whose identifiers are not
/// published, in order, the first of each identifier only.
pub open spec fn fresh(items: Seq<SyndicationView>, published: Set<Seq<char>>) -> Seq<
    SyndicationView,
>
    decreases items.len(),
{
    if items.len() == 0 {
        Seq::empty()
    } else {
        with_fresh(fresh(items.drop_last(), published), items.last(), published)
    }
}

/// A batch holds each identifier once, never a published one, and only
/// items that it was made of.
pub proof fn fresh_is_sound(items: Seq<SyndicationView>, published: Set<Seq<char>>)
    ensures
        distinct_ids(fresh(items, published)),
        forall|i: int|
            0 <= i < fresh(items, published).len() ==> !published.contains(
                (#[trigger] fresh(items, published)[i]).id,
            ),
        forall|i: int|
            0 <= i < fresh(items, published).len() ==> items.contains(
                #[trigger] fresh(items, published)[i],
            ),
    decreases items.len(),
{
    if items.len() > 0 {
        let head = items.drop_last();
        fresh_is_sound(head, published);
        let before = fresh(head, published);
        let after = fresh(items, published);
        assert forall|i: int| 0 <= i < after.len() implies items.contains(#[trigger] after[i]) by {
            if i < before.len() {
                assert(head.contains(before[i]));
                let k = choose|k: int| 0 <= k < head.len() && head[k] == before[i];
                assert(items[k] == after[i]);
            } else {
                assert(items[items.len() - 1] == after[i]);
            }
        }
    }
}

/// A batch misses no item that is due: every item whose identifier is not
/// published has its identifier in the batch.
pub proof fn fresh_is_complete(items: Seq<SyndicationView>, published: Set<Seq<char>>, k: int)
    requires
        0 <= k < items.len(),
        !published.contains(items[k].id),
    ensures
        holds(fresh(items, published), items[k].id),
    decreases items.len(),
{
    let head = items.drop_last();
    let before = fresh(head, published);
    let after = fresh(items, published);
    if k < items.len() - 1 {
        fresh_is_complete(head, published, k);
        let at = place_of(before, items[k].id);
        assert(after[at].id == items[k].id);
    } else if holds(before, items[k].id) {
    } else {
        assert(after[after.len() - 1].id == items[k].id);
    }
}

/// An identifier that is published is in no batch, whatever the items are.
pub proof fn published_stays_out(
    items: Seq<SyndicationView>,
    published: Set<Seq<char>>,
    id: Seq<char>,
)
    requires
        published.contains(id),
    ensures
        !holds(fresh(items, published), id),
{
    fresh_is_sound(items, published);
}

/// Once the identifiers of a batch are published, the same items give an
/// empty batch.
pub proof fn nothing_left_after_publishing(
    items: Seq<SyndicationView>,
    published: Set<Seq<char>>,
)
    ensures
        fresh(
            items,
            published.union(entry_ids(fresh(items, published)).to_set()),
        ).len() == 0,
{
    let batch = fresh(items, published);
    let after = published.union(entry_ids(batch).to_set());
    let next = fresh(items, after);
    if next.len() > 0 {
        fresh_is_sound(items, after);
        let item = next[0];
        assert(items.contains(item));
        let k = choose|k: int| 0 <= k < items.len() && items[k] == item;
        assert(!after.contains(item.id));
        fresh_is_complete(items, published, k);
        let at = place_of(batch, item.id);
        assert(entry_ids(batch)[at] == item.id);
        assert(entry_ids(batch).to_set().contains(item.id));
    }
}

/// The items that one cycle publishes together, in a fixed order and
/// findable by identifier. No two of them bear the same identifier.
pub struct Batch {
    items: Vec<SyndicationFormat>,
    slots: StringHashMap<usize>,
}

impl Batch {
    /// Whether the batch is consistent. Every batch that this module hands
    /// out is.
    pub closed spec fn wf(&self) -> bool {
        &&& forall|i: int|
            0 <= i < self.items.len() ==> self.slots@.contains_key(
                (#[trigger] self.items@[i]).id@,
            ) && self.slots@[self.items@[i].id@] == i
        &&& forall|k: Seq<char>| #[trigger]
            self.slots@.contains_key(k) ==> self.slots@[k] < self.items.len()
                && self.items@[self.slots@[k] as int].id@ == k
    }

    /// The items of the batch, in order.
    pub closed spec fn entries(&self) -> Seq<SyndicationView> {
        views(self.items@)
    }

    /// No two items of a batch bear the same identifier.
    pub proof fn entries_are_distinct(&self)
        requires
            self.wf(),
        ensures
            distinct_ids(self.entries()),
    {
        assert forall|i: int, j: int|
            0 <= i < self.entries().len() && 0 <= j < self.entries().len() && (
            #[trigger] self.entries()[i]).id == (#[trigger] self.entries()[j]).id implies i
            == j by {
            assert(self.items@[i].id@ == self.items@[j].id@);
        }
    }

    /// A batch without items.
    pub fn new() -> (r: Batch)
        ensures
            r.wf(),
            r.entries() == Seq::<SyndicationView>::empty(),
    {
        Batch { items: Vec::new(), slots: StringHashMap::new() }
    }

    /// How many items the batch holds.
    pub fn len(&self) -> (r: usize)
        requires
            self.wf(),
        ensures
            r == self.entries().len(),
    {
        self.items.len()
    }

    /// Whether the batch holds no item.
    pub fn is_empty(&self) -> (r: bool)
        requires
            self.wf(),
        ensures
            r == (self.entries().len() == 0),
    {
        self.items.len() == 0
    }

    /// Whether an item of the batch bears `id`.
    pub fn contains(&self, id: &str) -> (r: bool)
        requires
            self.wf(),
        ensures
            r == holds(self.entries(), id@),
    {
        let r = self.slots.contains_key(id);
        proof {
            if r {
                assert(self.entries()[self.slots@[id@] as int].id == id@);
            }
            if holds(self.entries(), id@) {
                let i = place_of(self.entries(), id@);
                assert(self.items@[i].id@ == id@);
            }
        }
        r
    }

    /// The item at place `i`.
    pub fn item(&self, i: usize) -> (r: &SyndicationFormat)
        requires
            self.wf(),
            i < self.entries().len(),
        ensures
            r@ == self.entries()[i as int],
    {
        &self.items[i]
    }

    /// The place of the item that bears `id`, if the batch holds one.
    pub fn position(&self, id: &str) -> (r: Option<usize>)
        requires
            self.wf(),
        ensures
            r is Some == holds(self.entries(), id@),
            r matches Some(place) ==> place == place_of(self.entries(), id@),
    {
        match self.slots.get(id) {
            Some(slot) => {
                proof {
                    self.entries_are_distinct();
                    assert(self.entries()[*slot as int].id == id@);
                }
                Some(*slot)
            },
            None => {
                proof {
                    if holds(self.entries(), id@) {
                        let i = place_of(self.entries(), id@);
                        assert(self.items@[i].id@ == id@);
                    }
                }
                None
            },
        }
    }

    /// The item that bears `id`, if the batch holds one.
    pub fn get(&self, id: &str) -> (r: Option<&SyndicationFormat>)
        requires
            self.wf(),
        ensures
            r is Some == holds(self.entries(), id@),
            r matches Some(item) ==> item@ == self.entries()[place_of(self.entries(), id@)],
    {
        match self.slots.get(id) {
            Some(slot) => {
                proof {
                    self.entries_are_distinct();
                    assert(self.entries()[*slot as int].id == id@);
                }
                Some(&self.items[*slot])
            },
            None => {
                proof {
                    if holds(self.entries(), id@) {
                        let i = place_of(self.entries(), id@);
                        assert(self.items@[i].id@ == id@);
                    }
                }
                None
            },
        }
    }

    /// Adds `item` at the end unless the batch holds its identifier
    /// already; says whether it was added.
    pub fn insert(&mut self, item: SyndicationFormat) -> (r: bool)
        requires
            old(self).wf(),
        ensures
            final(self).wf(),
            r == !holds(old(self).entries(), item@.id),
            final(self).entries() == if r {
                old(self).entries().push(item@)
            } else {
                old(self).entries()
            },
    {
        if self.contains(item.id.as_str()) {
            return false;
        }
        let slot = self.items.len();
        let ghost before = self.items@;
        self.slots.insert(item.id.clone(), slot);
        self.items.push(item);
        proof {
            assert(views(self.items@) == views(before).push(item@));
            assert forall|i: int| 0 <= i < self.items.len() implies self.slots@.contains_key(
                (#[trigger] self.items@[i]).id@,
            ) && self.slots@[self.items@[i].id@] == i by {
                if i < before.len() {
                    assert(before[i].id@ != item@.id) by {
                        assert(views(before)[i].id == before[i].id@);
                    }
                }
            }
        }
        true
    }

    /// The identifiers of the items, in order.
    pub fn ids(&self) -> (r: Vec<String>)
        requires
            self.wf(),
        ensures
            views(r@) == entry_ids(self.entries()),
    {
        let mut out: Vec<String> = Vec::new();
        let mut i: usize = 0;
        while i < self.items.len()
            invariant
                i <= self.items.len(),
                views(out@) == entry_ids(self.entries()).take(i as int),
            decreases self.items.len() - i,
        {
            out.push(self.items[i].id.clone());
            assert(views(out@) == entry_ids(self.entries()).take(i as int).push(
                self.items@[i as int].id@,
            ));
            i += 1;
        }
        assert(entry_ids(self.entries()).take(self.items@.len() as int) == entry_ids(
            self.entries(),
        ));
        out
    }

    /// The batch of a cycle: the items of `items` that `tracker` does not
    /// hold as published, copied.
    pub fn unpublished(items: &Vec<SyndicationFormat>, tracker: &SyndicationTracker) -> (r: Batch)
        requires
            tracker.wf(),
        ensures
            r.wf(),
            r.entries() == fresh(views(items@), tracker.published()),
    {
        let mut batch = Batch::new();
        let mut i: usize = 0;
        while i < items.len()
            invariant
                i <= items.len(),
                tracker.wf(),
                batch.wf(),
                batch.entries() == fresh(views(items@).take(i as int), tracker.published()),
            decreases items.len() - i,
        {
            proof {
                let upto = views(items@).take(i + 1);
                assert(upto.drop_last() == views(items@).take(i as int));
                assert(upto.last() == items@[i as int]@);
            }
            if !tracker.is_published(items[i].id.as_str()) {
                batch.insert(items[i].duplicate());
            }
            i += 1;
        }
        assert(views(items@).take(items@.len() as int) == views(items@));
        batch
    }
}

/// A destination that publishes batches.
pub trait SyndicationSink {
    /// Publishes all of `items` in one call. With `dry_run` nothing durable
    /// may happen, and what would happen should be made observable.
    fn publish(&mut self, items: &Batch, dry_run: bool) -> (r: Result<(), SinkError>)
        requires
            items.wf(),
    ;

    /// A stable name without spaces that tells this destination from others.
    fn name(&self) -> &str;
}

} // verus!
