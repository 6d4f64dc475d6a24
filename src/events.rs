//! The event router: inbound notifications, once translated, are queued for
//! the rendering layer in the order they arrived. Notifications that could not
//! be translated are discarded, never fatal.
use vstd::prelude::*;
use std::collections::VecDeque;

verus! {

/// The events that a translation yields; none for a notification that could
/// not be translated.
pub open spec fn yielded<E>(t: Option<Seq<E>>) -> Seq<E> {
    match t {
        Some(es) => es,
        None => seq![],
    }
}

/// The events queued after routing the translations `ts` in turn.
pub open spec fn routed<E>(ts: Seq<Option<Seq<E>>>) -> Seq<E>
    decreases ts.len(),
{
    if ts.len() == 0 {
        seq![]
    } else {
        routed(ts.drop_last()) + yielded(ts.last())
    }
}

/// Routes translated notifications to the consumer, in arrival order.
pub struct EventRouter<E> {
    queue: VecDeque<E>,
}

impl<E> View for EventRouter<E> {
    type V = Seq<E>;

    /// The events waiting for the consumer, oldest first.
    closed spec fn view(&self) -> Seq<E> {
        self.queue@
    }
}

impl<E> EventRouter<E> {
    /// A router with nothing queued.
    pub fn new() -> (r: EventRouter<E>)
        ensures
            r@ == Seq::<E>::empty(),
    {
        EventRouter { queue: VecDeque::new() }
    }

    /// Queues the events of one translated notification after those already
    /// queued; a notification that could not be translated (`None`) is
    /// discarded. Returns whether it was accepted.
    pub fn route(&mut self, translated: Option<Vec<E>>) -> (accepted: bool)
        ensures
            accepted == translated is Some,
            final(self)@ == old(self)@ + yielded(
                match translated {
                    Some(v) => Some(v@),
                    None => None,
                },
            ),
    {
        match translated {
            None => false,
            Some(v) => {
                let mut v = v;
                let ghost all = old(self)@ + v@;
                while v.len() > 0
                    invariant
                        self.queue@ + v@ == all,
                    decreases v@.len(),
                {
                    let ghost before = v@;
                    let e = v.remove(0);
                    self.queue.push_back(e);
                    assert(before =~= seq![e] + v@);
                    assert(self.queue@ + v@ =~= all);
                }
                assert(self.queue@ =~= all);
                true
            },
        }
    }

    /// Hands the oldest queued event to the consumer.
    pub fn next_event(&mut self) -> (r: Option<E>)
        ensures
            old(self)@.len() == 0 ==> r is None && final(self)@ == old(self)@,
            old(self)@.len() > 0 ==> r == Some(old(self)@[0]) && final(self)@
                == old(self)@.drop_first(),
    {
        let r = self.queue.pop_front();
        proof {
            if old(self)@.len() > 0 {
                assert(self.queue@ =~= old(self)@.drop_first());
            }
        }
        r
    }

    /// The number of events waiting.
    pub fn len(&self) -> (r: usize)
        ensures
            r == self@.len(),
    {
        self.queue.len()
    }
}

/// Routing keeps arrival order: notifications that each translate to one
/// event yield exactly those events, in the order the notifications came.
pub proof fn lemma_routing_keeps_order<E>(events: Seq<E>)
    ensures
        routed(events.map_values(|e: E| Some(seq![e]))) == events,
    decreases events.len(),
{
    let ts = events.map_values(|e: E| Some(seq![e]));
    if events.len() > 0 {
        lemma_routing_keeps_order(events.drop_last());
        assert(ts.drop_last() =~= events.drop_last().map_values(|e: E| Some(seq![e])));
        assert(events =~= events.drop_last().push(events.last()));
        assert(yielded(ts.last()) =~= seq![events.last()]);
    } else {
        assert(routed(ts) =~= events);
    }
}

} // verus!
