//! Events, and the channels over which they are told.

use std::sync::mpsc::{Receiver, Sender};

use vstd::prelude::*;

use crate::hci::BDAddr;

verus! {

/// Something that an adapter tells its listeners.
#[derive(Debug, Copy, Clone, PartialEq, Eq)]
pub enum Event {
    /// A device was heard of for the first time.
    DeviceDiscovered(BDAddr),
    /// A device was heard of again.
    DeviceUpdated(BDAddr),
    /// A device was connected.
    DeviceConnected(BDAddr),
}

/// `std::sync::mpsc::Sender`, seen through `sender_record` and `sender_channel` only.
#[verifier::external_type_specification]
#[verifier::external_body]
#[verifier::reject_recursive_types(T)]
pub struct ExSender<T>(Sender<T>);

/// `std::sync::mpsc::Receiver`, seen through `receiver_channel` only.
#[verifier::external_type_specification]
#[verifier::external_body]
#[verifier::reject_recursive_types(T)]
pub struct ExReceiver<T>(Receiver<T>);

/// The sends that were made on a sending end, in order, each with its answer: whether
/// the receiving end was still there.
pub uninterp spec fn sender_record(tx: Sender<Event>) -> Seq<(Event, bool)>;

/// The channel that a sending end sends over.
pub uninterp spec fn sender_channel(tx: Sender<Event>) -> int;

/// The channel that a receiving end takes events from.
pub uninterp spec fn receiver_channel(rx: Receiver<Event>) -> int;

/// `std::sync::mpsc::channel`: the two ends of a new channel, over which nothing has
/// been sent yet. The channel is a new one, so none of `_others` is on it.
#[verifier::external_body]
fn open_channel(_others: &Vec<Listener>) -> (ends: (Sender<Event>, Receiver<Event>))
    ensures
        sender_record(ends.0) == Seq::<(Event, bool)>::empty(),
        sender_channel(ends.0) == receiver_channel(ends.1),
        off_channel(_others@, receiver_channel(ends.1)),
{
    std::sync::mpsc::channel()
}

/// `Sender::send`: makes a send of `event` over the channel of `tx`, and tells whether
/// the receiving end was still there. Nothing is promised of that answer, which is up
/// to whoever holds that end; the record shows it.
#[verifier::external_body]
fn send(tx: &mut Sender<Event>, event: Event) -> (delivered: bool)
    ensures
        sender_channel(*final(tx)) == sender_channel(*old(tx)),
        sender_record(*final(tx)) == sender_record(*old(tx)).push((event, delivered)),
{
    tx.send(event).is_ok()
}

/// A listener: the sending end of its channel, on which nobody else sends.
pub struct Listener {
    tx: Sender<Event>,
}

impl Listener {
    /// The channel that the listener is told events over.
    pub closed spec fn channel(self) -> int {
        sender_channel(self.tx)
    }

    /// The sends that were made to the listener, in order, each with its answer:
    /// whether the receiving end was still there.
    pub closed spec fn record(self) -> Seq<(Event, bool)> {
        sender_record(self.tx)
    }

    /// `self` is `before` after one more send, of `event`, was answered by `delivered`.
    pub open spec fn heard(self, before: Listener, event: Event, delivered: bool) -> bool {
        &&& self.channel() == before.channel()
        &&& self.record() == before.record().push((event, delivered))
    }

    /// A listener on a new channel, which none of `others` is on, and the channel's
    /// receiving end.
    pub fn new(others: &Vec<Listener>) -> (pair: (Listener, Receiver<Event>))
        ensures
            pair.0.record() == Seq::<(Event, bool)>::empty(),
            pair.0.channel() == receiver_channel(pair.1),
            off_channel(others@, pair.0.channel()),
    {
        let (tx, rx) = open_channel(others);
        (Listener { tx }, rx)
    }

    /// Sends `event` over the channel, and tells whether the receiving end was still
    /// there.
    pub fn tell(&mut self, event: Event) -> (delivered: bool)
        ensures
            final(self).heard(*old(self), event, delivered),
            final(self).channel() == old(self).channel(),
            final(self).record() == old(self).record().push((event, delivered)),
    {
        send(&mut self.tx, event)
    }
}

/// What is said of a listener is said of its own sending end.
proof fn law_listener_is_its_sender(listener: Listener)
    ensures
        listener.channel() == sender_channel(listener.tx),
        listener.record() == sender_record(listener.tx),
{
}

/// A listener that was told an event has exactly that event, with that answer, behind
/// what it had been told before, over the same channel.
pub proof fn law_heard_adds_one(
    after: Listener,
    before: Listener,
    event: Event,
    delivered: bool,
)
    ensures
        after.heard(before, event, delivered) <==> {
            &&& after.channel() == before.channel()
            &&& after.record().len() == before.record().len() + 1
            &&& after.record().last() == (event, delivered)
            &&& after.record().drop_last() == before.record()
        },
{
    if after.record().len() == before.record().len() + 1 && after.record().last() == (
        event,
        delivered,
    ) && after.record().drop_last() == before.record() {
        assert(after.record() =~= before.record().push((event, delivered)));
    }
    assert(before.record().push((event, delivered)).drop_last() =~= before.record());
}

/// None of `list` is on the channel `channel`.
pub open spec fn off_channel(list: Seq<Listener>, channel: int) -> bool {
    forall|i: int| 0 <= i < list.len() ==> (#[trigger] list[i]).channel() != channel
}

/// Every one of `after` is the one of `before` in its place after one more send, of
/// `event`, was answered by the mark in its place in `open`.
pub open spec fn all_heard(
    after: Seq<Listener>,
    before: Seq<Listener>,
    event: Event,
    open: Seq<bool>,
) -> bool {
    &&& after.len() == before.len()
    &&& open.len() == before.len()
    &&& forall|i: int|
        0 <= i < after.len() ==> (#[trigger] after[i]).heard(before[i], event, open[i])
}

/// Sends `event` to every listener once, in their order, and tells for each whether
/// its receiving end was still there.
pub fn tell_all(listeners: &mut Vec<Listener>, event: Event) -> (open: Vec<bool>)
    ensures
        all_heard(final(listeners)@, old(listeners)@, event, open@),
        open@.len() == old(listeners)@.len(),
        final(listeners)@.len() == old(listeners)@.len(),
        forall|i: int|
            0 <= i < old(listeners)@.len() ==> {
                &&& (#[trigger] final(listeners)@[i]).channel() == old(listeners)@[i].channel()
                &&& final(listeners)@[i].record() == old(listeners)@[i].record().push(
                    (event, open@[i]),
                )
            },
{
    let mut open: Vec<bool> = Vec::new();
    let ghost before = listeners@;
    let mut i: usize = 0;
    while i < listeners.len()
        invariant
            i <= listeners@.len(),
            listeners@.len() == before.len(),
            open@.len() == i,
            forall|j: int|
                0 <= j < i ==> (#[trigger] listeners@[j]).heard(before[j], event, open@[j]),
            forall|j: int| i <= j < before.len() ==> #[trigger] listeners@[j] == before[j],
        decreases listeners@.len() - i,
    {
        let delivered = listeners[i].tell(event);
        open.push(delivered);
        i = i + 1;
    }
    open
}

/// The items of `items` whose mark in `keep` is set, in their order.
pub open spec fn kept<T>(items: Seq<T>, keep: Seq<bool>) -> Seq<T>
    decreases items.len(),
{
    if items.len() == 0 {
        Seq::empty()
    } else if keep[0] {
        seq![items[0]] + kept(items.skip(1), keep.skip(1))
    } else {
        kept(items.skip(1), keep.skip(1))
    }
}

/// Drops the items whose mark in `keep` is not set.
pub fn retain_marked<T>(items: &mut Vec<T>, keep: &Vec<bool>)
    requires
        keep@.len() == old(items)@.len(),
    ensures
        final(items)@ == kept(old(items)@, keep@),
{
    let ghost all = items@;
    let mut i: usize = items.len();
    assert(all.take(i as int) + kept(all.skip(i as int), keep@.skip(i as int)) =~= all);
    while i > 0
        invariant
            i <= all.len(),
            keep@.len() == all.len(),
            items@ == all.take(i as int) + kept(all.skip(i as int), keep@.skip(i as int)),
        decreases i,
    {
        let ghost before = items@;
        i = i - 1;
        assert(all.skip(i as int).skip(1) =~= all.skip(i + 1));
        assert(keep@.skip(i as int).skip(1) =~= keep@.skip(i + 1));
        if !keep[i] {
            items.remove(i);
        }
        assert(items@ =~= all.take(i as int) + kept(all.skip(i as int), keep@.skip(i as int)));
    }
    assert(all.skip(0) =~= all);
    assert(keep@.skip(0) =~= keep@);
    assert(items@ =~= kept(all, keep@));
}

/// Where every mark is set, all items stay.
pub proof fn law_kept_all<T>(items: Seq<T>, keep: Seq<bool>)
    requires
        items.len() == keep.len(),
        forall|i: int| 0 <= i < keep.len() ==> #[trigger] keep[i],
    ensures
        kept(items, keep) == items,
    decreases items.len(),
{
    if items.len() > 0 {
        law_kept_all(items.skip(1), keep.skip(1));
        assert(seq![items[0]] + items.skip(1) =~= items);
    }
}

/// The items that stay keep their order: what stays of two rows, one behind the other,
/// is what stays of the first, and behind it what stays of the second.
pub proof fn law_kept_in_order<T>(a: Seq<T>, keep_a: Seq<bool>, b: Seq<T>, keep_b: Seq<bool>)
    requires
        a.len() == keep_a.len(),
        b.len() == keep_b.len(),
    ensures
        kept(a + b, keep_a + keep_b) == kept(a, keep_a) + kept(b, keep_b),
    decreases a.len(),
{
    if a.len() == 0 {
        assert(a + b =~= b);
        assert(keep_a + keep_b =~= keep_b);
    } else {
        law_kept_in_order(a.skip(1), keep_a.skip(1), b, keep_b);
        assert((a + b).skip(1) =~= a.skip(1) + b);
        assert((keep_a + keep_b).skip(1) =~= keep_a.skip(1) + keep_b);
    }
    assert(kept(a + b, keep_a + keep_b) =~= kept(a, keep_a) + kept(b, keep_b));
}

/// The items that stay are those whose marks are set: each of them, and no others.
pub proof fn law_kept_members<T>(items: Seq<T>, keep: Seq<bool>, item: T)
    requires
        items.len() == keep.len(),
    ensures
        kept(items, keep).contains(item) <==> exists|i: int|
            0 <= i < items.len() && keep[i] && #[trigger] items[i] == item,
    decreases items.len(),
{
    if items.len() > 0 {
        let rest = items.skip(1);
        let marks = keep.skip(1);
        law_kept_members(rest, marks, item);
        if kept(items, keep).contains(item) {
            let k = choose|k: int| 0 <= k < kept(items, keep).len() && kept(items, keep)[k]
                == item;
            if keep[0] && k == 0 {
                assert(items[0] == item);
            } else {
                assert(kept(rest, marks)[if keep[0] { k - 1 } else { k }] == item);
                assert(kept(rest, marks).contains(item));
                let i = choose|i: int|
                    0 <= i < rest.len() && marks[i] && #[trigger] rest[i] == item;
                assert(keep[i + 1] && items[i + 1] == item);
            }
        }
        if exists|i: int| 0 <= i < items.len() && keep[i] && #[trigger] items[i] == item {
            let i = choose|i: int|
                0 <= i < items.len() && keep[i] && #[trigger] items[i] == item;
            if i == 0 {
                assert(kept(items, keep)[0] == item);
            } else {
                assert(marks[i - 1] && rest[i - 1] == item);
                assert(kept(rest, marks).contains(item));
                let k = choose|k: int| 0 <= k < kept(rest, marks).len() && kept(rest, marks)[k]
                    == item;
                assert(kept(items, keep)[if keep[0] { k + 1 } else { k }] == item);
            }
        }
    }
}

/// `at` holds the places, in ascending order, at which `items` has the members of
/// `picked`: every place whose mark in `keep` is set, and no other.
pub open spec fn picks_in_order<T>(
    items: Seq<T>,
    keep: Seq<bool>,
    picked: Seq<T>,
    at: Seq<int>,
) -> bool {
    &&& at.len() == picked.len()
    &&& forall|k: int|
        0 <= k < at.len() ==> {
            &&& 0 <= #[trigger] at[k] < items.len()
            &&& keep[at[k]]
            &&& picked[k] == items[at[k]]
        }
    &&& forall|j: int, k: int| 0 <= j < k < at.len() ==> #[trigger] at[j] < #[trigger] at[k]
    &&& forall|i: int| 0 <= i < items.len() && keep[i] ==> #[trigger] at.contains(i)
}

/// What stays are the items at the places whose marks are set, each place once, in
/// ascending order.
pub proof fn law_kept_places<T>(items: Seq<T>, keep: Seq<bool>)
    requires
        items.len() == keep.len(),
    ensures
        exists|at: Seq<int>| #[trigger] picks_in_order(items, keep, kept(items, keep), at),
    decreases items.len(),
{
    let picked = kept(items, keep);
    if items.len() == 0 {
        assert(picks_in_order(items, keep, picked, Seq::<int>::empty()));
    } else {
        let rest = items.skip(1);
        let marks = keep.skip(1);
        law_kept_places(rest, marks);
        let later = choose|at: Seq<int>| #[trigger]
            picks_in_order(rest, marks, kept(rest, marks), at);
        let moved = later.map_values(|i: int| i + 1);
        let at = if keep[0] {
            seq![0int] + moved
        } else {
            moved
        };
        let skipped: int = if keep[0] {
            1
        } else {
            0
        };
        assert forall|k: int| skipped <= k < at.len() implies #[trigger] at[k] == later[k - skipped]
            + 1 by {}
        assert forall|k: int| 0 <= k < at.len() implies {
            &&& 0 <= #[trigger] at[k] < items.len()
            &&& keep[at[k]]
            &&& picked[k] == items[at[k]]
        } by {
            if k >= skipped {
                let i = later[k - skipped];
                assert(marks[i] && kept(rest, marks)[k - skipped] == rest[i]);
            }
        }
        assert forall|j: int, k: int| 0 <= j < k < at.len() implies #[trigger] at[j]
            < #[trigger] at[k] by {
            assert(at[k] == later[k - skipped] + 1);
            if j >= skipped {
                assert(later[j - skipped] < later[k - skipped]);
            }
        }
        assert forall|i: int| 0 <= i < items.len() && keep[i] implies #[trigger] at.contains(
            i,
        ) by {
            if i == 0 {
                assert(at[0] == 0);
            } else {
                assert(marks[i - 1]);
                assert(later.contains(i - 1));
                let k = choose|k: int| 0 <= k < later.len() && later[k] == i - 1;
                assert(at[k + skipped] == i);
            }
        }
        assert(picks_in_order(items, keep, picked, at));
    }
}

/// Whoever listens after an event was told was told it: once, behind all that it was
/// told before, and its receiving end was there.
pub proof fn law_listeners_have_heard(
    before: Seq<Listener>,
    told: Seq<Listener>,
    open: Seq<bool>,
    event: Event,
    listener: Listener,
)
    requires
        all_heard(told, before, event, open),
        kept(told, open).contains(listener),
    ensures
        exists|i: int|
            0 <= i < before.len() && listener.heard(#[trigger] before[i], event, true),
{
    law_kept_members(told, open, listener);
    let i = choose|i: int| 0 <= i < told.len() && open[i] && #[trigger] told[i] == listener;
    assert(told[i].heard(before[i], event, open[i]));
    assert(listener.heard(before[i], event, true));
}

/// Something that happens to a list of listeners.
pub enum ListenerStep {
    /// A listener comes.
    Stream { listener: Listener },
    /// `event` is sent to all, which makes them `told`; `open` holds the answers.
    Emit { event: Event, told: Seq<Listener>, open: Seq<bool> },
}

/// `after` is `before` after `step`: one who comes has been told nothing, is on a
/// channel of its own and is added at the end; of those told
/// an event, exactly those whose receiving end was there stay.
pub open spec fn stepped(before: Seq<Listener>, step: ListenerStep, after: Seq<Listener>) -> bool {
    match step {
        ListenerStep::Stream { listener } => {
            &&& listener.record() == Seq::<(Event, bool)>::empty()
            &&& off_channel(before, listener.channel())
            &&& after == before.push(listener)
        },
        ListenerStep::Emit { event, told, open } => {
            &&& all_heard(told, before, event, open)
            &&& after == kept(told, open)
        },
    }
}

/// Telling an event reaches every listener once, over its own channel and behind all
/// that it was told before. Each whose receiving end was there stays, nobody else does,
/// and those who stay keep their order.
pub proof fn law_emit_step(
    before: Seq<Listener>,
    event: Event,
    told: Seq<Listener>,
    open: Seq<bool>,
    after: Seq<Listener>,
)
    requires
        stepped(before, ListenerStep::Emit { event, told, open }, after),
    ensures
        told.len() == before.len(),
        open.len() == before.len(),
        forall|i: int|
            0 <= i < before.len() ==> {
                &&& (#[trigger] told[i]).channel() == before[i].channel()
                &&& told[i].record() == before[i].record().push((event, open[i]))
            },
        forall|i: int| 0 <= i < told.len() && open[i] ==> after.contains(#[trigger] told[i]),
        forall|one: Listener| #[trigger]
            after.contains(one) ==> exists|i: int|
                0 <= i < told.len() && open[i] && #[trigger] told[i] == one,
        exists|at: Seq<int>| #[trigger] picks_in_order(told, open, after, at),
{
    assert forall|i: int| 0 <= i < before.len() implies {
        &&& (#[trigger] told[i]).channel() == before[i].channel()
        &&& told[i].record() == before[i].record().push((event, open[i]))
    } by {
        assert(told[i].heard(before[i], event, open[i]));
    }
    assert forall|i: int| 0 <= i < told.len() && open[i] implies after.contains(
        #[trigger] told[i],
    ) by {
        law_kept_members(told, open, told[i]);
    }
    assert forall|one: Listener| #[trigger] after.contains(one) implies exists|i: int|
        0 <= i < told.len() && open[i] && #[trigger] told[i] == one by {
        law_kept_members(told, open, one);
    }
    law_kept_places(told, open);
}

/// A listener who comes is added behind all others, who stay as they were; it has been
/// told nothing, and none of the others is on its channel.
pub proof fn law_stream_step(before: Seq<Listener>, listener: Listener, after: Seq<Listener>)
    requires
        stepped(before, ListenerStep::Stream { listener }, after),
    ensures
        after.len() == before.len() + 1,
        after.last() == listener,
        after.drop_last() == before,
        listener.record().len() == 0,
        forall|i: int|
            0 <= i < before.len() ==> (#[trigger] before[i]).channel() != listener.channel(),
{
    assert(before.push(listener).drop_last() =~= before);
}

/// `lists` are the lists of listeners before, between and after `steps`.
pub open spec fn listener_run(lists: Seq<Seq<Listener>>, steps: Seq<ListenerStep>) -> bool {
    &&& lists.len() == steps.len() + 1
    &&& forall|i: int|
        0 <= i < steps.len() ==> #[trigger] stepped(lists[i], steps[i], lists[i + 1])
}

/// The record of one who was told every event of `steps`, once and in order, with its
/// receiving end there each time.
pub open spec fn all_delivered(steps: Seq<ListenerStep>) -> Seq<(Event, bool)>
    decreases steps.len(),
{
    if steps.len() == 0 {
        Seq::empty()
    } else {
        match steps.last() {
            ListenerStep::Stream { .. } => all_delivered(steps.drop_last()),
            ListenerStep::Emit { event, .. } => all_delivered(steps.drop_last()).push(
                (event, true),
            ),
        }
    }
}

/// One of `list` is on the channel `channel` and has the record `record`.
pub open spec fn listens(
    list: Seq<Listener>,
    channel: int,
    record: Seq<(Event, bool)>,
) -> bool {
    exists|i: int|
        0 <= i < list.len() && (#[trigger] list[i]).channel() == channel && list[i].record()
            == record
}

/// `step` tells an event to one on the channel `channel` who had the record `record`,
/// whose receiving end is gone.
pub open spec fn hangs_up(
    step: ListenerStep,
    channel: int,
    record: Seq<(Event, bool)>,
) -> bool {
    step matches ListenerStep::Emit { event, told, .. } && listens(
        told,
        channel,
        record.push((event, false)),
    )
}

/// `after` is `before` after `event` was told, if there was one; `told` and `open` are
/// the listeners and the answers then.
pub open spec fn told_of(
    before: Seq<Listener>,
    event: Option<Event>,
    told: Seq<Listener>,
    open: Seq<bool>,
    after: Seq<Listener>,
) -> bool {
    match event {
        Some(event) => stepped(before, ListenerStep::Emit { event, told, open }, after),
        None => after == before,
    }
}

/// Where a message brings no event, no listener is told anything and all stay; where it
/// brings one, that one is told.
pub proof fn law_told_of(
    before: Seq<Listener>,
    event: Option<Event>,
    told: Seq<Listener>,
    open: Seq<bool>,
    after: Seq<Listener>,
)
    requires
        told_of(before, event, told, open, after),
    ensures
        event is None ==> after == before,
        event is Some ==> told.len() == before.len() && open.len() == before.len(),
        event matches Some(e) ==> forall|i: int|
            0 <= i < before.len() ==> (#[trigger] told[i]).record() == before[i].record().push(
                (e, open[i]),
            ) && told[i].channel() == before[i].channel(),
        event is Some ==> exists|at: Seq<int>| #[trigger] picks_in_order(told, open, after, at),
{
    if let Some(e) = event {
        law_emit_step(before, e, told, open, after);
    }
}

/// One who listens when an event is told either still listens afterwards, with the
/// event delivered, or was found gone.
pub proof fn law_told_or_gone(
    before: Seq<Listener>,
    event: Event,
    told: Seq<Listener>,
    open: Seq<bool>,
    after: Seq<Listener>,
    channel: int,
    record: Seq<(Event, bool)>,
)
    requires
        stepped(before, ListenerStep::Emit { event, told, open }, after),
        listens(before, channel, record),
    ensures
        listens(after, channel, record.push((event, true))) || listens(
            told,
            channel,
            record.push((event, false)),
        ),
{
    let i = choose|i: int|
        0 <= i < before.len() && (#[trigger] before[i]).channel() == channel
            && before[i].record() == record;
    assert(told[i].heard(before[i], event, open[i]));
    if open[i] {
        law_kept_members(told, open, told[i]);
        let m = choose|m: int| 0 <= m < after.len() && after[m] == told[i];
        assert(after[m].channel() == channel);
    } else {
        assert(told[i].channel() == channel);
    }
}

/// Whoever listens gets every event that is emitted from then on over its own channel,
/// each once and in order, until a send to it finds the receiving end gone, whatever
/// becomes of the other listeners and whoever comes. So it is with the listener that
/// `ConnectedAdapter::event_stream` adds, which has an empty record and the channel of
/// the receiver returned.
pub proof fn law_stream_gets_every_event(
    lists: Seq<Seq<Listener>>,
    steps: Seq<ListenerStep>,
    listener: Listener,
)
    requires
        listener_run(lists, steps),
        lists[0].contains(listener),
    ensures
        ({
            ||| listens(
                lists.last(),
                listener.channel(),
                listener.record() + all_delivered(steps),
            )
            ||| exists|k: int|
                0 <= k < steps.len() && hangs_up(
                    #[trigger] steps[k],
                    listener.channel(),
                    listener.record() + all_delivered(steps.take(k)),
                )
        }),
    decreases steps.len(),
{
    let channel = listener.channel();
    let record = listener.record();
    if steps.len() == 0 {
        assert(record + all_delivered(steps) =~= record);
        let i = choose|i: int| 0 <= i < lists[0].len() && lists[0][i] == listener;
        assert(lists.last()[i].channel() == channel);
    } else {
        let n = steps.len() - 1;
        let early = steps.drop_last();
        assert forall|i: int| 0 <= i < early.len() implies #[trigger] stepped(
            lists.drop_last()[i],
            early[i],
            lists.drop_last()[i + 1],
        ) by {
            assert(stepped(lists[i], steps[i], lists[i + 1]));
        }
        law_stream_gets_every_event(lists.drop_last(), early, listener);
        assert(stepped(lists[n], steps[n], lists[n + 1]));
        assert(early =~= steps.take(n));
        if listens(lists[n], channel, record + all_delivered(early)) {
            let sent = record + all_delivered(early);
            match steps[n] {
                ListenerStep::Stream { listener: new } => {
                    let i = choose|i: int|
                        0 <= i < lists[n].len() && (#[trigger] lists[n][i]).channel() == channel
                            && lists[n][i].record() == sent;
                    assert(lists.last()[i] == lists[n][i]);
                },
                ListenerStep::Emit { event, told, open } => {
                    law_told_or_gone(lists[n], event, told, open, lists.last(), channel, sent);
                    assert(record + all_delivered(steps) =~= sent.push((event, true)));
                    if listens(told, channel, sent.push((event, false))) {
                        assert(hangs_up(steps[n], channel, record + all_delivered(steps.take(n))));
                    }
                },
            }
        } else {
            let k = choose|k: int|
                0 <= k < early.len() && hangs_up(
                    #[trigger] early[k],
                    channel,
                    record + all_delivered(early.take(k)),
                );
            assert(early.take(k) =~= steps.take(k));
            assert(hangs_up(steps[k], channel, record + all_delivered(steps.take(k))));
        }
    }
}

/// No two of `list` are on one channel.
pub open spec fn own_channels(list: Seq<Listener>) -> bool {
    forall|i: int, j: int|
        0 <= i < j < list.len() ==> (#[trigger] list[i]).channel() != (
        #[trigger] list[j]).channel()
}

/// Each listener keeps a channel to itself: what is sent to one reaches no other's
/// receiver, and a receiver gets no event twice.
pub proof fn law_channels_stay_apart(lists: Seq<Seq<Listener>>, steps: Seq<ListenerStep>)
    requires
        listener_run(lists, steps),
        own_channels(lists[0]),
    ensures
        own_channels(lists.last()),
    decreases steps.len(),
{
    if steps.len() > 0 {
        let n = steps.len() - 1;
        let early = steps.drop_last();
        assert forall|i: int| 0 <= i < early.len() implies #[trigger] stepped(
            lists.drop_last()[i],
            early[i],
            lists.drop_last()[i + 1],
        ) by {
            assert(stepped(lists[i], steps[i], lists[i + 1]));
        }
        law_channels_stay_apart(lists.drop_last(), early);
        assert(stepped(lists[n], steps[n], lists[n + 1]));
        if let ListenerStep::Emit { event, told, open } = steps[n] {
            assert forall|i: int, j: int| 0 <= i < j < told.len() implies (
            #[trigger] told[i]).channel() != (#[trigger] told[j]).channel() by {
                assert(told[i].heard(lists[n][i], event, open[i]));
                assert(told[j].heard(lists[n][j], event, open[j]));
                assert(lists[n][i].channel() != lists[n][j].channel());
            }
            lemma_kept_own_channels(told, open);
        }
    }
}

proof fn lemma_kept_own_channels(list: Seq<Listener>, keep: Seq<bool>)
    requires
        list.len() == keep.len(),
        own_channels(list),
    ensures
        own_channels(kept(list, keep)),
    decreases list.len(),
{
    if list.len() > 0 {
        let rest = kept(list.skip(1), keep.skip(1));
        lemma_kept_own_channels(list.skip(1), keep.skip(1));
        assert forall|j: int| 0 <= j < rest.len() implies (#[trigger] rest[j]).channel()
            != list[0].channel() by {
            assert(rest.contains(rest[j]));
            law_kept_members(list.skip(1), keep.skip(1), rest[j]);
            let i = choose|i: int|
                0 <= i < list.skip(1).len() && keep.skip(1)[i] && #[trigger] list.skip(1)[i]
                    == rest[j];
            assert(list[i + 1] == rest[j]);
            assert(list[0].channel() != list[i + 1].channel());
        }
        let all = kept(list, keep);
        if keep[0] {
            assert forall|i: int, j: int| 0 <= i < j < all.len() implies (
            #[trigger] all[i]).channel() != (#[trigger] all[j]).channel() by {
                assert(all[j] == rest[j - 1]);
                if i > 0 {
                    assert(all[i] == rest[i - 1]);
                }
            }
        }
    }
}

} // verus!
