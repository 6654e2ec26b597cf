//! The dashboard controller: owns the current snapshot and its derived
//! display sequence, receives replacement snapshots over the asynchronous
//! channel, and decides when the loop ends. Polling the keyboard, waiting,
//! and drawing are the embedding's; each iteration it hands the pressed key
//! to `tick` and then renders from the accessors.

use vstd::prelude::*;
use crate::batch::Events;
use crate::channel;
use crate::event::Event;
use crate::order::{display_list, views_of};
use crate::ui::{quits, process_keypress, KeyInput};

verus! {

/// The dashboard controller's state: the snapshot most recently adopted,
/// the display sequence derived from it by the key-order algorithm, the
/// receive end of the batch channel, and the optional cancellation signal.
#[verifier::reject_recursive_types(E)]
pub struct EventLine<E: Event> {
    event_receiver: Option<tokio::sync::mpsc::UnboundedReceiver<Events<E>>>,
    events_data: Option<Events<E>>,
    title: String,
    data_list: Vec<String>,
    shutdown_tx: Option<tokio::sync::oneshot::Sender<bool>>,
}

impl<E: Event> EventLine<E> {
    /// The display title.
    pub closed spec fn spec_title(&self) -> Seq<char> {
        self.title@
    }

    /// The derived display sequence.
    pub closed spec fn spec_data_list(&self) -> Seq<Seq<char>> {
        views_of(self.data_list@)
    }

    /// The currently held snapshot, if any was adopted yet.
    pub closed spec fn spec_batch(&self) -> Option<Events<E>> {
        self.events_data
    }

    /// The registered cancellation sender, if one is still held.
    pub closed spec fn spec_shutdown(&self) -> Option<tokio::sync::oneshot::Sender<bool>> {
        self.shutdown_tx
    }

    /// Whether a channel's receive end is held.
    pub closed spec fn has_receiver(&self) -> bool {
        self.event_receiver is Some
    }

    /// A fresh controller: given title, no snapshot, empty display
    /// sequence, no channel, no cancellation signal.
    pub fn new(s: String) -> (r: EventLine<E>)
        ensures
            r.spec_title() == s@,
            r.spec_batch() is None,
            r.spec_data_list().len() == 0,
            r.spec_shutdown() is None,
            !r.has_receiver(),
    {
        EventLine {
            event_receiver: None,
            events_data: None,
            title: s,
            data_list: Vec::new(),
            shutdown_tx: None,
        }
    }

    /// Registers the one-shot cancellation signal fired when the loop ends.
    pub fn with_shutdown(&mut self, shutdown_tx: tokio::sync::oneshot::Sender<bool>) -> (r: &Self)
        ensures
            final(self).spec_shutdown() == Some(shutdown_tx),
            final(self).spec_title() == old(self).spec_title(),
            final(self).spec_batch() == old(self).spec_batch(),
            final(self).spec_data_list() == old(self).spec_data_list(),
            final(self).has_receiver() == old(self).has_receiver(),
    {
        self.shutdown_tx = Some(shutdown_tx);
        self
    }

    pub fn title(&self) -> (r: &str)
        ensures
            r@ == self.spec_title(),
    {
        self.title.as_str()
    }

    pub fn data_list(&self) -> (r: &Vec<String>)
        ensures
            views_of(r@) == self.spec_data_list(),
    {
        &self.data_list
    }

    /// The counter of the held snapshot; zero before any was received.
    pub fn global_counter(&self) -> (c: i32)
        ensures
            c == match self.spec_batch() {
                Some(ev) => ev.global_counter,
                None => 0,
            },
    {
        match &self.events_data {
            Some(events) => events.global_counter,
            None => 0,
        }
    }

    /// The last-update marker of the held snapshot; empty before any was
    /// received.
    pub fn last_update(&self) -> (r: String)
        ensures
            r@ == match self.spec_batch() {
                Some(ev) => ev.last_update@,
                None => Seq::<char>::empty(),
            },
    {
        match &self.events_data {
            Some(events) => events.last_update.clone(),
            None => String::new(),
        }
    }

    /// How many events the held snapshot maps; zero before any was
    /// received.
    pub fn events_map_size(&self) -> (n: usize)
        ensures
            n == match self.spec_batch() {
                Some(ev) => ev.events_map@.len(),
                None => 0,
            },
    {
        match &self.events_data {
            Some(events) => events.events_map.len(),
            None => 0,
        }
    }

    /// Allocates the unbounded batch channel, keeps the receive end, and
    /// hands the send end to the producer. A receive end held before is
    /// discarded: only one channel is ever active.
    pub fn create_event_channel(&mut self) -> (tx: tokio::sync::mpsc::UnboundedSender<Events<E>>)
        ensures
            final(self).has_receiver(),
            final(self).spec_title() == old(self).spec_title(),
            final(self).spec_batch() == old(self).spec_batch(),
            final(self).spec_data_list() == old(self).spec_data_list(),
            final(self).spec_shutdown() == old(self).spec_shutdown(),
    {
        let (sender, receiver) = channel::unbounded_pair();
        self.event_receiver = Some(receiver);
        sender
    }
}

/// `post` is `pre` after adopting snapshot `b`: the snapshot is held and
/// the display sequence is recomputed in full by the key-order algorithm;
/// title and cancellation signal are untouched.
pub open spec fn adopted<E: Event>(pre: EventLine<E>, post: EventLine<E>, b: Events<E>) -> bool {
    &&& post.spec_batch() == Some(b)
    &&& post.spec_data_list().len() == display_list(b.events_map@).len()
    &&& forall|i: int|
        0 <= i < post.spec_data_list().len() ==> post.spec_data_list()[i] == display_list(
            b.events_map@,
        )[i]
    &&& post.spec_title() == pre.spec_title()
    &&& post.spec_shutdown() == pre.spec_shutdown()
}

/// Nothing a renderer reads changed between `pre` and `post`.
pub open spec fn display_unchanged<E: Event>(pre: EventLine<E>, post: EventLine<E>) -> bool {
    &&& post.spec_batch() == pre.spec_batch()
    &&& post.spec_data_list() == pre.spec_data_list()
    &&& post.spec_title() == pre.spec_title()
    &&& post.spec_shutdown() == pre.spec_shutdown()
}

impl<E: Event> EventLine<E> {
    /// Replaces the held snapshot wholesale and recomputes the display
    /// sequence with the key-order algorithm.
    pub fn adopt_batch(&mut self, events: Events<E>)
        ensures
            adopted(*old(self), *final(self), events),
            final(self).has_receiver() == old(self).has_receiver(),
    {
        proof {
            use_type_invariant(&events.events_map);
            crate::order::lemma_sorted_keys_facts(events.events_map@);
        }
        let lu = events.last_update.clone();
        let pair = EventLine::<E>::sort_map_by_key(&events, lu);
        self.data_list = pair.0;
        self.events_data = Some(events);
    }

    /// Fires the registered cancellation signal, if any; the sender is
    /// consumed, so at most one notification is ever delivered.
    pub fn notify_shutdown(&mut self) -> (notified: bool)
        ensures
            notified == (old(self).spec_shutdown() is Some),
            final(self).spec_shutdown() is None,
            final(self).spec_title() == old(self).spec_title(),
            final(self).spec_batch() == old(self).spec_batch(),
            final(self).spec_data_list() == old(self).spec_data_list(),
            final(self).has_receiver() == old(self).has_receiver(),
    {
        match self.shutdown_tx.take() {
            Some(tx) => {
                let _delivered = channel::oneshot_send(tx, true);
                true
            },
            None => false,
        }
    }

    /// Receives at most one pending snapshot and adopts it. Without a
    /// channel, without a pending snapshot, or with the channel closed,
    /// the display state is unchanged: a closed channel is idleness, never
    /// termination.
    pub fn poll_events(&mut self)
        ensures
            display_unchanged(*old(self), *final(self)) || (exists|b: Events<E>|
                adopted(*old(self), *final(self), b)),
            final(self).has_receiver() == old(self).has_receiver(),
    {
        let batch = match self.event_receiver.take() {
            Some(mut receiver) => {
                let b = channel::try_recv_now(&mut receiver);
                self.event_receiver = Some(receiver);
                b
            },
            None => None,
        };
        match batch {
            Some(events) => {
                let ghost b = events;
                self.adopt_batch(events);
                proof {
                    assert(adopted(*old(self), *self, b));
                }
            },
            None => {},
        }
    }

    /// One loop iteration's decisions: classify the polled key; on a quit
    /// key fire the cancellation signal and report termination, otherwise
    /// receive at most one pending snapshot. The caller renders afterwards
    /// exactly when `tick` did not report termination.
    pub fn tick(&mut self, key: Option<KeyInput>) -> (quit: bool)
        ensures
            quit == quits(key),
            quit ==> {
                &&& final(self).spec_shutdown() is None
                &&& final(self).spec_batch() == old(self).spec_batch()
                &&& final(self).spec_data_list() == old(self).spec_data_list()
                &&& final(self).spec_title() == old(self).spec_title()
            },
            !quit ==> (display_unchanged(*old(self), *final(self)) || (exists|b: Events<E>|
                adopted(*old(self), *final(self), b))),
    {
        if process_keypress(key) {
            let _notified = self.notify_shutdown();
            true
        } else {
            self.poll_events();
            false
        }
    }
}

/// Adoption is idempotent: adopting the same snapshot twice in a row
/// yields the identical display sequence and held snapshot both times.
pub proof fn lemma_adoption_idempotent<E: Event>(
    s0: EventLine<E>,
    s1: EventLine<E>,
    s2: EventLine<E>,
    b: Events<E>,
)
    requires
        adopted(s0, s1, b),
        adopted(s1, s2, b),
    ensures
        s1.spec_data_list() == s2.spec_data_list(),
        s1.spec_batch() == s2.spec_batch(),
{
    assert(s1.spec_data_list() =~= s2.spec_data_list());
}

} // verus!
