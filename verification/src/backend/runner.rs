//! What the capture screen decides: what a key does to the session, and in
//! which order what was captured is shown.

use crate::backend::information::{body_of, title_of, InformationImpl};
use crate::backend::state::{InputLine, State};
use crate::text::text_of;
use crate::time::Timestamp;
use uuid::Uuid;
use vstd::prelude::*;

verus! {

/// Whether the session goes on.
#[derive(Clone, Copy, Debug, PartialEq, Eq, Structural)]
pub enum Signal {
    Continue,
    Quit,
}

/// What the input line answered to a key.
#[derive(Clone, Copy, Debug, PartialEq, Eq, Structural)]
pub enum Response {
    /// The text or the cursor changed.
    StateChanged,
    /// The user left the line.
    Escaped,
    /// The user sent the line off.
    Submitted,
}

/// What a key leads to while capturing.
#[derive(Debug)]
pub enum Captured {
    /// Nothing is to be kept; the session goes on or ends.
    Nothing(Signal),
    /// This is to be kept, and the session goes on with an empty line.
    Keep(InformationImpl),
}

/// The text of the input line; none where there is no line yet.
pub open spec fn typed(input: Option<InputLine>) -> Seq<char> {
    match input {
        Some(line) => line.value@,
        None => Seq::empty(),
    }
}

/// Whether the answer of the input line means that its text is to be kept:
/// the line was sent off, and it was not empty.
pub open spec fn keeps(response: Option<Response>, text: Seq<char>) -> bool {
    response == Some(Response::Submitted) && text.len() > 0
}

/// Whether the session goes on where nothing is kept: it ends when the user
/// leaves the line or sends it off empty.
pub open spec fn signal_for(response: Option<Response>) -> Signal {
    if response == Some(Response::Escaped) || response == Some(Response::Submitted) {
        Signal::Quit
    } else {
        Signal::Continue
    }
}

/// Whether the item `b` was captured strictly later than `a`.
pub open spec fn later(a: InformationImpl, b: InformationImpl) -> bool {
    b.captured_at@.is_after(a.captured_at@)
}

/// No item stands before one that was captured earlier.
pub open spec fn in_order(list: Seq<InformationImpl>) -> bool {
    forall|i: int, j: int| 0 <= i < j < list.len() ==> !later(list[j], list[i])
}

/// The first position in `list` of an item that was captured no earlier than
/// `item`, or the length of `list`.
pub open spec fn place_from(list: Seq<InformationImpl>, item: InformationImpl, from: int) -> int
    decreases list.len() - from,
{
    if 0 <= from < list.len() && later(list[from], item) {
        place_from(list, item, from + 1)
    } else {
        from
    }
}

/// The items in the order of their capture. Items captured at the same
/// instant keep the order in which they came.
pub open spec fn by_capture(list: Seq<InformationImpl>) -> Seq<InformationImpl>
    decreases list.len(),
{
    if list.len() == 0 {
        list
    } else {
        let rest = by_capture(list.drop_first());
        rest.insert(place_from(rest, list[0], 0), list[0])
    }
}

proof fn lemma_place(list: Seq<InformationImpl>, item: InformationImpl, from: int)
    requires
        0 <= from <= list.len(),
    ensures
        from <= place_from(list, item, from) <= list.len(),
        forall|k: int| from <= k < place_from(list, item, from) ==> later(#[trigger] list[k], item),
        place_from(list, item, from) < list.len() ==> !later(
            list[place_from(list, item, from)],
            item,
        ),
    decreases list.len() - from,
{
    if from < list.len() && later(list[from], item) {
        lemma_place(list, item, from + 1);
    }
}

/// Ordering by capture loses nothing, adds nothing, and leaves no item
/// before one that was captured earlier.
pub proof fn lemma_by_capture(list: Seq<InformationImpl>)
    ensures
        by_capture(list).len() == list.len(),
        by_capture(list).to_multiset() == list.to_multiset(),
        in_order(by_capture(list)),
        in_order(list) ==> by_capture(list) == list,
    decreases list.len(),
{
    if list.len() > 0 {
        let tail = list.drop_first();
        let rest = by_capture(tail);
        let item = list[0];
        let p = place_from(rest, item, 0);
        lemma_by_capture(tail);
        lemma_place(rest, item, 0);
        let sorted = rest.insert(p, item);
        vstd::seq_lib::to_multiset_insert(rest, p, item);
        assert(list =~= seq![item] + tail);
        vstd::seq_lib::to_multiset_insert(tail, 0, item);
        assert(tail.insert(0, item) =~= list);
        assert forall|i: int, j: int| 0 <= i < j < sorted.len() implies !later(
            sorted[j],
            sorted[i],
        ) by {
            let a = if i < p { i } else { i - 1 };
            let b = if j < p { j } else { j - 1 };
            if i != p && j != p {
                assert(sorted[i] == rest[a] && sorted[j] == rest[b]);
            } else if i == p {
                assert(sorted[j] == rest[b]);
                assert(!later(rest[p], item));
                if b > p {
                    assert(!later(rest[b], rest[p]));
                }
            } else {
                assert(sorted[i] == rest[a]);
                assert(later(rest[a], item));
            }
        }
        if in_order(list) {
            assert forall|i: int, j: int| 0 <= i < j < tail.len() implies !later(
                tail[j],
                tail[i],
            ) by {
                assert(tail[i] == list[i + 1] && tail[j] == list[j + 1]);
            }
            assert(rest == tail);
            if p > 0 {
                assert(later(rest[0], item));
                assert(rest[0] == list[1]);
                assert(!later(list[1], list[0]));
            }
            assert(sorted =~= list);
        }
    }
}

/// Whether `b` was captured strictly later than `a`.
fn captured_later(a: &InformationImpl, b: &InformationImpl) -> (r: bool)
    ensures
        r == later(*a, *b),
{
    b.captured_at.is_after(&a.captured_at)
}

/// The items in the order of their capture. Items captured at the same
/// instant keep the order in which they came.
pub fn sort_by_capture(list: Vec<InformationImpl>) -> (r: Vec<InformationImpl>)
    ensures
        r@ == by_capture(list@),
        r@.to_multiset() == list@.to_multiset(),
        in_order(r@),
{
    let ghost all = list@;
    let mut left = list;
    let mut sorted: Vec<InformationImpl> = Vec::new();
    assert(all.subrange(all.len() as int, all.len() as int) =~= Seq::empty());
    while left.len() > 0
        invariant
            left@ == all.subrange(0, left@.len() as int),
            left@.len() <= all.len(),
            sorted@ == by_capture(all.subrange(left@.len() as int, all.len() as int)),
        decreases left@.len(),
    {
        let ghost n = left@.len() as int;
        let item = left.pop().unwrap();
        let ghost done = all.subrange(n, all.len() as int);
        let ghost next = all.subrange(n - 1, all.len() as int);
        proof {
            assert(next.drop_first() =~= done);
            assert(next[0] == item);
            assert(left@ =~= all.subrange(0, n - 1));
            lemma_place(sorted@, item, 0);
        }
        let mut p: usize = 0;
        while p < sorted.len() && captured_later(&sorted[p], &item)
            invariant
                p <= sorted@.len(),
                place_from(sorted@, item, 0) == place_from(sorted@, item, p as int),
            decreases sorted@.len() - p,
        {
            p += 1;
        }
        sorted.insert(p, item);
    }
    proof {
        assert(all.subrange(0, all.len() as int) =~= all);
        lemma_by_capture(all);
    }
    sorted
}

impl State {
    /// Shows `list`, in the order of capture, in the place of what was
    /// shown before.
    pub fn show(&mut self, list: Vec<InformationImpl>)
        ensures
            final(self).information_list@ == by_capture(list@),
            final(self).current_step == old(self).current_step,
            final(self).input == old(self).input,
            final(self).horizon_priority_list == old(self).horizon_priority_list,
            final(self).label_list == old(self).label_list,
            final(self).information_label_relation_list == old(
                self,
            ).information_label_relation_list,
    {
        self.information_list = sort_by_capture(list);
    }

    /// What the answer of the input line to a key leads to while capturing,
    /// where what is kept is captured at `now` under `id`. A line that was
    /// sent off empty ends the session, as leaving the line does. A line
    /// that was sent off with text is kept, and the line starts anew.
    /// Otherwise the session goes on. Where there was no input line yet,
    /// there is an empty one afterwards.
    pub fn capture_at(&mut self, response: Option<Response>, id: Uuid, now: Timestamp) -> (r:
        Captured)
        ensures
            final(self).current_step == old(self).current_step,
            final(self).information_list == old(self).information_list,
            final(self).input is Some,
            r is Keep <==> keeps(response, typed(old(self).input)),
            r matches Captured::Keep(item) ==> {
                &&& item.id == id
                &&& item.captured_at == now
                &&& item.title@ == title_of(typed(old(self).input))
                &&& text_of(item.body) == body_of(typed(old(self).input))
                &&& item.fresh()
                &&& typed(final(self).input).len() == 0
                &&& final(self).input->0.cursor == 0
            },
            r matches Captured::Nothing(signal) ==> {
                &&& signal == signal_for(response)
                &&& typed(final(self).input) == typed(old(self).input)
                &&& old(self).input is Some ==> final(self).input == old(self).input
                &&& old(self).input is None ==> final(self).input->0.cursor == 0
            },
    {
        if self.input.is_none() {
            self.input = Some(InputLine::default());
        }
        match response {
            Some(Response::StateChanged) => Captured::Nothing(Signal::Continue),
            Some(Response::Escaped) => Captured::Nothing(Signal::Quit),
            Some(Response::Submitted) => {
                let empty = match &self.input {
                    Some(line) => line.value.as_str().unicode_len() == 0,
                    None => true,
                };
                if empty {
                    Captured::Nothing(Signal::Quit)
                } else {
                    let item = match &self.input {
                        Some(line) => InformationImpl::captured(line.value.as_str(), id, now),
                        None => InformationImpl::captured("", id, now),
                    };
                    self.input = Some(InputLine::default());
                    Captured::Keep(item)
                }
            },
            None => Captured::Nothing(Signal::Continue),
        }
    }

    /// What the answer of the input line to a key leads to while capturing,
    /// where what is kept is captured now, by the clock, under a fresh id.
    pub fn capture(&mut self, response: Option<Response>) -> (r: Captured)
        ensures
            final(self).current_step == old(self).current_step,
            final(self).information_list == old(self).information_list,
            final(self).input is Some,
            r is Keep <==> keeps(response, typed(old(self).input)),
            r matches Captured::Keep(item) ==> {
                &&& item.title@ == title_of(typed(old(self).input))
                &&& text_of(item.body) == body_of(typed(old(self).input))
                &&& item.fresh()
                &&& typed(final(self).input).len() == 0
            },
            r matches Captured::Nothing(signal) ==> {
                &&& signal == signal_for(response)
                &&& typed(final(self).input) == typed(old(self).input)
            },
    {
        self.capture_at(response, Uuid::new_v4(), Timestamp::utc_now())
    }
}

} // verus!
