//! Terminal sinks: the destinations a dispatch tree writes rendered lines to.

use vstd::prelude::*;

verus! {

use crate::model::bumped;

/// A writer sink: appends each rendered text plus a line terminator to the
/// stream it owns.
///
/// The core's owned stream is an in-memory line buffer; pushing the buffered
/// lines on to a terminal, file or network is an external collaborator's job.
/// Writing a line commits it immediately, so `flush` has nothing left to do.
pub struct WriterSink {
    lines: Vec<String>,
}

impl WriterSink {
    /// The lines written so far, oldest first.
    pub closed spec fn model(&self) -> Seq<Seq<char>> {
        self.lines.deep_view()
    }

    /// A writer that has written nothing yet.
    pub fn new() -> (r: WriterSink)
        ensures
            r.model() == Seq::<Seq<char>>::empty(),
    {
        let w = WriterSink { lines: Vec::new() };
        proof {
            assert(w.model() =~= Seq::<Seq<char>>::empty());
        }
        w
    }

    /// Appends `text` plus a line terminator to the owned stream.
    pub fn write_line(&mut self, text: &String)
        ensures
            final(self).model() == old(self).model().push(text@ + "\n"@),
    {
        let mut line = text.clone();
        line.append("\n");
        self.lines.push(line);
        proof {
            assert(final(self).model() =~= old(self).model().push(text@ + "\n"@));
        }
    }

    /// Commits buffered output; every written line is already committed, so
    /// the stream is left as it is.
    pub fn flush(&mut self)
        ensures
            final(self).model() == old(self).model(),
    {
    }

    /// Read access to the committed lines, oldest first.
    pub fn lines(&self) -> (r: &Vec<String>)
        ensures
            r.deep_view() == self.model(),
    {
        &self.lines
    }
}

/// A cross-thread queue sink: enqueues each rendered text plus a line
/// terminator into a first-in-first-out queue.
///
/// Policy: the queue is unbounded and enqueuing never blocks the sender.  An
/// enqueued item is observable by the receiver at once, so the queue is
/// always flushed.  When the receiving side has disconnected, delivery fails:
/// the item is dropped and the failure is counted, so that fan-out to sibling
/// sinks goes on undisturbed.
pub struct QueueSink {
    items: Vec<String>,
    closed: bool,
    dropped: u64,
}

impl QueueSink {
    /// The items enqueued and not yet received, oldest first.
    pub closed spec fn model(&self) -> Seq<Seq<char>> {
        self.items.deep_view()
    }

    /// Whether the receiving side has disconnected.
    pub closed spec fn is_closed(&self) -> bool {
        self.closed
    }

    /// How many deliveries failed because the receiver had disconnected.
    pub closed spec fn dropped_model(&self) -> nat {
        self.dropped as nat
    }

    /// An open queue with nothing enqueued.
    pub fn new() -> (r: QueueSink)
        ensures
            r.model() == Seq::<Seq<char>>::empty(),
            !r.is_closed(),
            r.dropped_model() == 0,
    {
        let q = QueueSink { items: Vec::new(), closed: false, dropped: 0 };
        proof {
            assert(q.model() =~= Seq::<Seq<char>>::empty());
        }
        q
    }

    /// Enqueues `text` plus a line terminator, or counts a delivery failure
    /// when the receiver has disconnected.
    pub fn enqueue_line(&mut self, text: &String)
        ensures
            final(self).is_closed() == old(self).is_closed(),
            !old(self).is_closed() ==> {
                &&& final(self).model() == old(self).model().push(text@ + "\n"@)
                &&& final(self).dropped_model() == old(self).dropped_model()
            },
            old(self).is_closed() ==> {
                &&& final(self).model() == old(self).model()
                &&& final(self).dropped_model() == bumped(old(self).dropped_model())
            },
    {
        if self.closed {
            if self.dropped < u64::MAX {
                self.dropped = self.dropped + 1;
            }
        } else {
            let mut line = text.clone();
            line.append("\n");
            self.items.push(line);
            proof {
                assert(final(self).model() =~= old(self).model().push(text@ + "\n"@));
            }
        }
    }

    /// Receives the oldest enqueued item, if any.
    pub fn recv(&mut self) -> (r: Option<String>)
        ensures
            old(self).model().len() == 0 ==> {
                &&& r is None
                &&& final(self).model() == old(self).model()
            },
            old(self).model().len() > 0 ==> {
                &&& r matches Some(item) && item@ == old(self).model()[0]
                &&& final(self).model() == old(self).model().drop_first()
            },
            final(self).is_closed() == old(self).is_closed(),
            final(self).dropped_model() == old(self).dropped_model(),
    {
        if self.items.len() == 0 {
            None
        } else {
            let item = self.items.remove(0);
            proof {
                assert(final(self).model() =~= old(self).model().drop_first());
            }
            Some(item)
        }
    }

    /// Marks the receiving side as disconnected: every later delivery fails.
    pub fn close_receiver(&mut self)
        ensures
            final(self).is_closed(),
            final(self).model() == old(self).model(),
            final(self).dropped_model() == old(self).dropped_model(),
    {
        self.closed = true;
    }

    /// Marks the queue as flushed; enqueued items are observable at once, so
    /// nothing changes.
    pub fn flush(&mut self)
        ensures
            *final(self) == *old(self),
    {
    }

    /// How many deliveries failed because the receiver had disconnected.
    pub fn dropped_count(&self) -> (r: u64)
        ensures
            r as nat == self.dropped_model(),
    {
        self.dropped
    }
}

/// A custom callback sink: the seam for an externally supplied capability
/// such as a verification hook or a third-party logger.
///
/// The core hands the hook every rendered text as-is (no line terminator is
/// added) and forwards every flush notification; both are recorded here for
/// the external collaborator to drain, and the core treats what the
/// collaborator then does as opaque.
pub struct CallbackSink {
    received: Vec<String>,
    flushes: u64,
}

impl CallbackSink {
    /// The rendered texts handed to the hook, oldest first.
    pub closed spec fn model(&self) -> Seq<Seq<char>> {
        self.received.deep_view()
    }

    /// How many flush notifications the hook has been handed.
    pub closed spec fn flushes_model(&self) -> nat {
        self.flushes as nat
    }

    /// A hook that has received nothing yet.
    pub fn new() -> (r: CallbackSink)
        ensures
            r.model() == Seq::<Seq<char>>::empty(),
            r.flushes_model() == 0,
    {
        let c = CallbackSink { received: Vec::new(), flushes: 0 };
        proof {
            assert(c.model() =~= Seq::<Seq<char>>::empty());
        }
        c
    }

    /// Hands the hook one rendered text.
    pub fn accept_text(&mut self, text: &String)
        ensures
            final(self).model() == old(self).model().push(text@),
            final(self).flushes_model() == old(self).flushes_model(),
    {
        self.received.push(text.clone());
        proof {
            assert(final(self).model() =~= old(self).model().push(text@));
        }
    }

    /// Forwards a flush notification to the hook.
    pub fn flush(&mut self)
        ensures
            final(self).model() == old(self).model(),
            final(self).flushes_model() == bumped(old(self).flushes_model()),
    {
        if self.flushes < u64::MAX {
            self.flushes = self.flushes + 1;
        }
    }

    /// How many flush notifications the hook has been handed.
    pub fn flush_count(&self) -> (r: u64)
        ensures
            r as nat == self.flushes_model(),
    {
        self.flushes
    }

    /// Read access to the rendered texts the hook has received.
    pub fn received(&self) -> (r: &Vec<String>)
        ensures
            r.deep_view() == self.model(),
    {
        &self.received
    }

    /// Hands out everything the hook has received, oldest first.
    pub fn into_received(self) -> (r: Vec<String>)
        ensures
            r.deep_view() == self.model(),
    {
        self.received
    }
}

} // verus!
