//! The record of the node identifiers that were published, and its text form.

use crate::text::{push_char, views};
use vstd::hash_set::StringHashSet;
use vstd::prelude::*;

verus! {

/// `known`, followed by the elements of `new` that it lacks, each once and
/// in the order of its first occurrence.
pub open spec fn merged(known: Seq<Seq<char>>, new: Seq<Seq<char>>) -> Seq<Seq<char>>
    decreases new.len(),
{
    if new.len() == 0 {
        known
    } else {
        let before = merged(known, new.drop_last());
        if before.contains(new.last()) {
            before
        } else {
            before.push(new.last())
        }
    }
}

/// `id` as the record writes it: a backslash is doubled, and a line feed
/// becomes a backslash and the letter `n`.
pub open spec fn escaped(id: Seq<char>) -> Seq<char>
    decreases id.len(),
{
    if id.len() == 0 {
        Seq::empty()
    } else {
        escaped(id.drop_last()) + escaped_char(id.last())
    }
}

/// One character as the record writes it.
pub open spec fn escaped_char(c: char) -> Seq<char> {
    if c == '\\' {
        seq!['\\', '\\']
    } else if c == '\n' {
        seq!['\\', 'n']
    } else {
        seq![c]
    }
}

/// The text of the record that holds `ids`: one line for each, in order.
pub open spec fn record_text(ids: Seq<Seq<char>>) -> Seq<char>
    decreases ids.len(),
{
    if ids.len() == 0 {
        Seq::empty()
    } else {
        record_text(ids.drop_last()) + escaped(ids.last()) + seq!['\n']
    }
}

/// State of a reader of record text: the lines read so far, the line being
/// read, and whether the last character was an unpaired backslash.
pub struct Reader {
    pub closed: Seq<Seq<char>>,
    pub open: Seq<char>,
    pub escaping: bool,
}

/// The reader's state after one more character.
pub open spec fn read_char(state: Reader, c: char) -> Reader {
    if state.escaping {
        if c == '\n' {
            Reader {
                closed: state.closed.push(state.open.push('\\')),
                open: Seq::empty(),
                escaping: false,
            }
        } else if c == 'n' {
            Reader { closed: state.closed, open: state.open.push('\n'), escaping: false }
        } else {
            Reader { closed: state.closed, open: state.open.push(c), escaping: false }
        }
    } else if c == '\\' {
        Reader { closed: state.closed, open: state.open, escaping: true }
    } else if c == '\n' {
        Reader { closed: state.closed.push(state.open), open: Seq::empty(), escaping: false }
    } else {
        Reader { closed: state.closed, open: state.open.push(c), escaping: false }
    }
}

/// The reader's state after all of `text`, started in `state`.
pub open spec fn read_from(state: Reader, text: Seq<char>) -> Reader
    decreases text.len(),
{
    if text.len() == 0 {
        state
    } else {
        read_char(read_from(state, text.drop_last()), text.last())
    }
}

/// The reader's state before any text.
pub open spec fn fresh_reader() -> Reader {
    Reader { closed: Seq::empty(), open: Seq::empty(), escaping: false }
}

/// The identifiers that a record text holds, in order: one for each line.
/// A last line without its line feed counts if it holds anything; a
/// backslash before any character but `n` stands for that character, and a
/// backslash at the end of a line for itself.
pub open spec fn record_ids(text: Seq<char>) -> Seq<Seq<char>> {
    let end = read_from(fresh_reader(), text);
    let last = if end.escaping {
        end.open.push('\\')
    } else {
        end.open
    };
    if last.len() > 0 {
        end.closed.push(last)
    } else {
        end.closed
    }
}

proof fn read_from_concat(state: Reader, a: Seq<char>, b: Seq<char>)
    ensures
        read_from(state, a + b) == read_from(read_from(state, a), b),
    decreases b.len(),
{
    if b.len() == 0 {
        assert(a + b == a);
    } else {
        read_from_concat(state, a, b.drop_last());
        assert((a + b).drop_last() == a + b.drop_last());
        assert((a + b).last() == b.last());
    }
}

proof fn read_one(state: Reader, c: char)
    ensures
        read_from(state, seq![c]) == read_char(state, c),
{
    assert(seq![c].drop_last() == Seq::<char>::empty());
    assert(read_from(state, Seq::<char>::empty()) == state);
}

proof fn read_two(state: Reader, c: char, d: char)
    ensures
        read_from(state, seq![c, d]) == read_char(read_char(state, c), d),
{
    assert(seq![c, d].drop_last() == seq![c]);
    read_one(state, c);
}

proof fn read_escaped(state: Reader, id: Seq<char>)
    requires
        !state.escaping,
    ensures
        read_from(state, escaped(id)) == (Reader {
            closed: state.closed,
            open: state.open + id,
            escaping: false,
        }),
    decreases id.len(),
{
    if id.len() == 0 {
        assert(state.open + id == state.open);
    } else {
        let head = id.drop_last();
        let c = id.last();
        read_escaped(state, head);
        read_from_concat(state, escaped(head), escaped_char(c));
        let mid = read_from(state, escaped(head));
        assert(mid.open.push(c) == state.open + id);
        if c == '\\' {
            read_two(mid, '\\', '\\');
        } else if c == '\n' {
            read_two(mid, '\\', 'n');
        } else {
            read_one(mid, c);
        }
    }
}

proof fn read_record_text(ids: Seq<Seq<char>>)
    ensures
        read_from(fresh_reader(), record_text(ids)) == (Reader {
            closed: ids,
            open: Seq::empty(),
            escaping: false,
        }),
    decreases ids.len(),
{
    if ids.len() > 0 {
        let head = ids.drop_last();
        let id = ids.last();
        read_record_text(head);
        let start = read_from(fresh_reader(), record_text(head));
        read_from_concat(fresh_reader(), record_text(head), escaped(id));
        read_escaped(start, id);
        let mid = read_from(fresh_reader(), record_text(head) + escaped(id));
        assert(mid.open == id) by {
            assert(Seq::<char>::empty() + id == id);
        }
        read_from_concat(fresh_reader(), record_text(head) + escaped(id), seq!['\n']);
        read_one(mid, '\n');
        assert(head.push(id) == ids);
    } else {
        assert(ids == Seq::<Seq<char>>::empty());
    }
}

/// Reading back the text of a record gives the identifiers it was written
/// from, whatever characters they hold.
pub proof fn record_text_round_trip(ids: Seq<Seq<char>>)
    ensures
        record_ids(record_text(ids)) == ids,
{
    read_record_text(ids);
}

/// Merging adds to the set of `known` exactly the elements of `new`, and
/// keeps `known` free of repetitions if it was.
pub proof fn merged_is_union(known: Seq<Seq<char>>, new: Seq<Seq<char>>)
    ensures
        merged(known, new).to_set() == known.to_set().union(new.to_set()),
        known.no_duplicates() ==> merged(known, new).no_duplicates(),
        known.len() <= merged(known, new).len(),
        merged(known, new).take(known.len() as int) == known,
    decreases new.len(),
{
    if new.len() == 0 {
        assert(new.to_set() =~= Set::<Seq<char>>::empty());
        assert(known.to_set().union(new.to_set()) =~= known.to_set());
        assert(known.take(known.len() as int) == known);
    } else {
        let head = new.drop_last();
        let x = new.last();
        merged_is_union(known, head);
        let before = merged(known, head);
        assert(new.to_set() =~= head.to_set().insert(x)) by {
            assert forall|e: Seq<char>| new.to_set().contains(e) <==> head.to_set().insert(
                x,
            ).contains(e) by {
                if new.contains(e) {
                    let i = choose|i: int| 0 <= i < new.len() && new[i] == e;
                    if i < head.len() {
                        assert(head[i] == e);
                    }
                }
                if head.contains(e) {
                    let i = choose|i: int| 0 <= i < head.len() && head[i] == e;
                    assert(new[i] == e);
                }
                assert(new[new.len() - 1] == x);
            }
        }
        if before.contains(x) {
            assert(before.to_set().contains(x));
            assert(before.to_set() =~= known.to_set().union(new.to_set()));
        } else {
            let after = before.push(x);
            assert(after.to_set() =~= before.to_set().insert(x)) by {
                assert forall|e: Seq<char>| after.to_set().contains(e) <==> before.to_set().insert(
                    x,
                ).contains(e) by {
                    if after.contains(e) {
                        let i = choose|i: int| 0 <= i < after.len() && after[i] == e;
                        if i < before.len() {
                            assert(before[i] == e);
                        }
                    }
                    if before.contains(e) {
                        let i = choose|i: int| 0 <= i < before.len() && before[i] == e;
                        assert(after[i] == e);
                    }
                    assert(after[after.len() - 1] == x);
                }
            }
            assert(after.to_set() =~= known.to_set().union(new.to_set()));
            assert(after.take(known.len() as int) == before.take(known.len() as int));
        }
    }
}

/// The identifiers published so far. Each is held once, in the order in
/// which it was first marked.
pub struct SyndicationTracker {
    ids: Vec<String>,
    index: StringHashSet,
}

impl SyndicationTracker {
    /// Whether the tracker is consistent. Every tracker that this module
    /// hands out is.
    pub closed spec fn wf(&self) -> bool {
        &&& self.index@ == views(self.ids@).to_set()
        &&& views(self.ids@).no_duplicates()
    }

    /// The identifiers marked as published, in the order of their marking.
    pub closed spec fn record(&self) -> Seq<Seq<char>> {
        views(self.ids@)
    }

    /// The set of the identifiers marked as published.
    pub open spec fn published(&self) -> Set<Seq<char>> {
        self.record().to_set()
    }

    /// No identifier is marked twice.
    pub proof fn marked_at_most_once(&self)
        requires
            self.wf(),
        ensures
            self.record().no_duplicates(),
    {
    }

    /// A tracker that holds nothing.
    pub fn new() -> (r: SyndicationTracker)
        ensures
            r.wf(),
            r.record() == Seq::<Seq<char>>::empty(),
    {
        let r = SyndicationTracker { ids: Vec::new(), index: StringHashSet::new() };
        assert(views(r.ids@).to_set() =~= Set::<Seq<char>>::empty());
        r
    }

    /// The tracker that a record text describes: each identifier of the
    /// text, once. An empty text gives an empty tracker.
    pub fn load(text: &str) -> (r: SyndicationTracker)
        ensures
            r.wf(),
            r.record() == merged(Seq::empty(), record_ids(text@)),
    {
        let mut closed: Vec<String> = Vec::new();
        let mut open = String::new();
        let mut escaping = false;
        assert(views(closed@) == Seq::<Seq<char>>::empty());
        for c in it: text.chars()
            invariant
                it.seq() == text@,
                (Reader { closed: views(closed@), open: open@, escaping }) == read_from(
                    fresh_reader(),
                    text@.take(it.index() as int),
                ),
        {
            proof {
                let upto = text@.take(it.index() + 1);
                assert(upto.drop_last() == text@.take(it.index() as int));
                assert(upto.last() == c);
            }
            let ghost before = closed@;
            if escaping {
                if c == '\n' {
                    push_char(&mut open, '\\');
                    closed.push(open);
                    assert(views(closed@) == views(before).push(open@));
                    open = String::new();
                } else if c == 'n' {
                    push_char(&mut open, '\n');
                } else {
                    push_char(&mut open, c);
                }
                escaping = false;
            } else if c == '\\' {
                escaping = true;
            } else if c == '\n' {
                closed.push(open);
                assert(views(closed@) == views(before).push(open@));
                open = String::new();
            } else {
                push_char(&mut open, c);
            }
        }
        assert(text@.take(text@.len() as int) == text@);
        if escaping {
            push_char(&mut open, '\\');
        }
        if !open.as_str().is_empty() {
            let ghost before = closed@;
            closed.push(open);
            assert(views(closed@) == views(before).push(open@));
        }
        let mut tracker = SyndicationTracker::new();
        tracker.mark_published(&closed);
        tracker
    }

    /// The tracker that a store gives back: the one that its text
    /// describes, or an empty one where there is no store yet.
    pub fn restore(stored: Option<&str>) -> (r: SyndicationTracker)
        ensures
            r.wf(),
            r.record() == match stored {
                Some(text) => merged(Seq::empty(), record_ids(text@)),
                None => Seq::empty(),
            },
    {
        match stored {
            Some(text) => SyndicationTracker::load(text),
            None => SyndicationTracker::new(),
        }
    }

    /// Whether `id` was marked as published.
    pub fn is_published(&self, id: &str) -> (r: bool)
        requires
            self.wf(),
        ensures
            r == self.published().contains(id@),
    {
        self.index.contains(id)
    }

    /// How many identifiers are marked.
    pub fn len(&self) -> (r: usize)
        requires
            self.wf(),
        ensures
            r == self.record().len(),
    {
        self.ids.len()
    }

    /// Marks every identifier of `ids` as published. One that is marked
    /// already stays where it is.
    pub fn mark_published(&mut self, ids: &Vec<String>)
        requires
            old(self).wf(),
        ensures
            final(self).wf(),
            final(self).record() == merged(old(self).record(), views(ids@)),
            final(self).published() == old(self).published().union(views(ids@).to_set()),
    {
        let mut i: usize = 0;
        while i < ids.len()
            invariant
                i <= ids.len(),
                self.wf(),
                self.record() == merged(old(self).record(), views(ids@).take(i as int)),
            decreases ids.len() - i,
        {
            proof {
                let upto = views(ids@).take(i + 1);
                assert(upto.drop_last() == views(ids@).take(i as int));
                assert(upto.last() == ids@[i as int]@);
            }
            if !self.index.contains(ids[i].as_str()) {
                let ghost before = views(self.ids@);
                self.index.insert(ids[i].clone());
                self.ids.push(ids[i].clone());
                proof {
                    let x = ids@[i as int]@;
                    let after = views(self.ids@);
                    assert(after == before.push(x));
                    assert(!before.contains(x));
                    assert(after.to_set() =~= before.to_set().insert(x)) by {
                        assert forall|e: Seq<char>| after.to_set().contains(e)
                            <==> before.to_set().insert(x).contains(e) by {
                            if after.contains(e) {
                                let k = choose|k: int| 0 <= k < after.len() && after[k] == e;
                                if k < before.len() {
                                    assert(before[k] == e);
                                }
                            }
                            if before.contains(e) {
                                let k = choose|k: int| 0 <= k < before.len() && before[k] == e;
                                assert(after[k] == e);
                            }
                            assert(after[after.len() - 1] == x);
                        }
                    }
                }
            }
            i += 1;
        }
        proof {
            assert(views(ids@).take(ids@.len() as int) == views(ids@));
            merged_is_union(old(self).record(), views(ids@));
        }
    }

    /// The text of the record: what [`SyndicationTracker::load`] reads back
    /// into a tracker with the same identifiers in the same order.
    pub fn record_text(&self) -> (r: String)
        requires
            self.wf(),
        ensures
            r@ == record_text(self.record()),
    {
        let mut out = String::new();
        let mut i: usize = 0;
        while i < self.ids.len()
            invariant
                i <= self.ids.len(),
                out@ == record_text(views(self.ids@).take(i as int)),
            decreases self.ids.len() - i,
        {
            proof {
                let upto = views(self.ids@).take(i + 1);
                assert(upto.drop_last() == views(self.ids@).take(i as int));
                assert(upto.last() == self.ids@[i as int]@);
            }
            let id = self.ids[i].as_str();
            let ghost start = out@;
            for c in it: id.chars()
                invariant
                    it.seq() == id@,
                    out@ == start + escaped(id@.take(it.index() as int)),
            {
                proof {
                    let upto = id@.take(it.index() + 1);
                    assert(upto.drop_last() == id@.take(it.index() as int));
                    assert(upto.last() == c);
                }
                if c == '\\' {
                    push_char(&mut out, '\\');
                    push_char(&mut out, '\\');
                } else if c == '\n' {
                    push_char(&mut out, '\\');
                    push_char(&mut out, 'n');
                } else {
                    push_char(&mut out, c);
                }
                assert(out@ == start + escaped(id@.take(it.index() + 1)));
            }
            assert(id@.take(id@.len() as int) == id@);
            push_char(&mut out, '\n');
            assert(out@ == start + escaped(id@) + seq!['\n']);
            i += 1;
        }
        assert(views(self.ids@).take(self.ids@.len() as int) == views(self.ids@));
        out
    }
}

/// Writing a tracker out and loading the text gives a tracker with the same
/// record.
pub proof fn reload_keeps_record(record: Seq<Seq<char>>)
    requires
        record.no_duplicates(),
    ensures
        merged(Seq::empty(), record_ids(record_text(record))) == record,
{
    record_text_round_trip(record);
    merged_into_empty(record);
}

proof fn merged_into_empty(record: Seq<Seq<char>>)
    requires
        record.no_duplicates(),
    ensures
        merged(Seq::empty(), record) == record,
    decreases record.len(),
{
    if record.len() > 0 {
        let head = record.drop_last();
        merged_into_empty(head);
        assert(!head.contains(record.last()));
        assert(head.push(record.last()) == record);
    }
}

} // verus!
