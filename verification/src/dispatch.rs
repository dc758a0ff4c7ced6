//! The dispatch tree: filter, format, and fan out.

use vstd::prelude::*;

use crate::format::{apply_formatter, formatter_model, Formatter};
use crate::level::{filter_passes, Level, LevelFilter};
use crate::model::{
    lemma_sinks_accept_pointwise, lemma_sinks_flush_pointwise, node_flush, node_handle,
    sink_accept, sink_flush, NodeModel, SinkModel,
};
use crate::record::Record;
use crate::sink::{CallbackSink, QueueSink, WriterSink};

verus! {

broadcast use vstd::seq::group_seq_axioms, vstd::std_specs::vec::group_vec_axioms;

/// One destination registered under a dispatch node.
///
/// The variant set is closed: a writer, a cross-thread queue, a nested
/// dispatch tree, or a custom callback hook.  Each variant owns its resource
/// outright, so a tree is strictly acyclic and is torn down by dropping its
/// root.
pub enum Sink {
    Writer(WriterSink),
    Queue(QueueSink),
    Nested(Box<Dispatch>),
    Callback(CallbackSink),
}

/// One node of the routing tree: an optional minimum-severity filter, an
/// optional formatter, and an ordered list of children.
///
/// A fresh node passes every severity and formats nothing.  Configuration
/// happens before the tree is sealed into a logger; there is no runtime
/// reconfiguration.
pub struct Dispatch {
    filter: LevelFilter,
    formatter: Option<Formatter>,
    children: Vec<Sink>,
}

impl Sink {
    /// Ghost mirror of this sink.
    pub closed spec fn model(&self) -> SinkModel
        decreases self,
    {
        match self {
            Sink::Writer(w) => SinkModel::Writer { lines: w.model() },
            Sink::Queue(q) => SinkModel::Queue {
                items: q.model(),
                closed: q.is_closed(),
                dropped: q.dropped_model(),
            },
            Sink::Nested(d) => SinkModel::Nested { node: d.model() },
            Sink::Callback(c) => SinkModel::Callback {
                texts: c.model(),
                flushes: c.flushes_model(),
            },
        }
    }
}

/// Ghost mirrors of a list of sinks, in registration order.
pub closed spec fn sinks_model(ss: Seq<Sink>) -> Seq<SinkModel>
    decreases ss,
{
    if ss.len() == 0 {
        Seq::empty()
    } else {
        sinks_model(ss.subrange(0, ss.len() - 1)).push(ss[ss.len() - 1].model())
    }
}

/// The mirror of a list of sinks is the list of the mirrors.
pub proof fn lemma_sinks_model_pointwise(ss: Seq<Sink>)
    ensures
        sinks_model(ss).len() == ss.len(),
        forall|i: int| 0 <= i < ss.len() ==> sinks_model(ss)[i] == (#[trigger] ss[i]).model(),
    decreases ss.len(),
{
    if ss.len() > 0 {
        lemma_sinks_model_pointwise(ss.subrange(0, ss.len() - 1));
        assert(forall|i: int|
            0 <= i < ss.len() - 1 ==> ss.subrange(0, ss.len() - 1)[i] == #[trigger] ss[i]);
    }
}

impl Dispatch {
    /// Ghost mirror of this node and everything below it.
    pub closed spec fn model(&self) -> NodeModel
        decreases self,
    {
        NodeModel {
            filter: self.filter,
            formatter: formatter_model(&self.formatter),
            children: sinks_model(self.children@),
        }
    }

    /// A fresh node: passes every severity, formats nothing, has no children.
    pub fn new() -> (r: Dispatch)
        ensures
            r.model() == (NodeModel {
                filter: LevelFilter::Trace,
                formatter: None,
                children: Seq::<SinkModel>::empty(),
            }),
    {
        let d = Dispatch { filter: LevelFilter::Trace, formatter: None, children: Vec::new() };
        proof {
            assert(d.model() =~= NodeModel {
                filter: LevelFilter::Trace,
                formatter: None,
                children: Seq::<SinkModel>::empty(),
            });
        }
        d
    }

    /// Replaces the node's minimum-severity filter.
    pub fn level(self, filter: LevelFilter) -> (r: Dispatch)
        ensures
            r.model() == (NodeModel { filter, ..self.model() }),
    {
        let d = Dispatch { filter, formatter: self.formatter, children: self.children };
        proof {
            assert(d.model() =~= NodeModel { filter, ..self.model() });
        }
        d
    }

    /// Replaces the node's formatter.
    pub fn format(self, formatter: Formatter) -> (r: Dispatch)
        ensures
            r.model() == (NodeModel {
                formatter: Some(formatter.model()),
                ..self.model()
            }),
    {
        let d = Dispatch { filter: self.filter, formatter: Some(formatter), children: self.children };
        proof {
            assert(d.model() =~= NodeModel { formatter: Some(formatter.model()), ..self.model() });
        }
        d
    }

    /// Registers one more sink; registration order is fan-out order.
    pub fn chain(self, sink: Sink) -> (r: Dispatch)
        ensures
            r.model() == (NodeModel {
                children: self.model().children.push(sink.model()),
                ..self.model()
            }),
    {
        let ghost s_model = sink.model();
        let mut children = self.children;
        let ghost orig = children@;
        children.push(sink);
        proof {
            assert(children@.subrange(0, children@.len() - 1) =~= orig);
            assert(sinks_model(children@) =~= sinks_model(orig).push(s_model));
        }
        let d = Dispatch { filter: self.filter, formatter: self.formatter, children };
        proof {
            assert(d.model() =~= NodeModel {
                children: self.model().children.push(s_model),
                ..self.model()
            });
        }
        d
    }

    /// How many sinks are registered directly under this node.
    pub fn children_len(&self) -> (r: usize)
        ensures
            r == self.model().children.len(),
    {
        proof {
            lemma_sinks_model_pointwise(self.children@);
        }
        self.children.len()
    }

    /// Read access to the sink at one registration slot.
    pub fn child_at(&self, i: usize) -> (r: &Sink)
        requires
            i < self.model().children.len(),
        ensures
            r.model() == self.model().children[i as int],
    {
        proof {
            lemma_sinks_model_pointwise(self.children@);
        }
        &self.children[i]
    }

    /// Tears the node apart and hands out its sinks in registration order.
    pub fn into_children(self) -> (r: Vec<Sink>)
        ensures
            r@.len() == self.model().children.len(),
            forall|i: int|
                0 <= i < r@.len() ==> (#[trigger] r@[i]).model() == self.model().children[i],
    {
        proof {
            lemma_sinks_model_pointwise(self.children@);
        }
        self.children
    }

    /// The level gate a facade precomputes when the tree is sealed: the least
    /// severity rank that can reach a sink below this node, 5 when none can.
    pub fn enabled_floor(&self) -> (r: u8)
        ensures
            r as int == crate::model::node_floor(self.model()),
        decreases *self,
    {
        let n = self.children.len();
        let mut child_floor: u8 = 5;
        let mut i: usize = 0;
        proof {
            lemma_sinks_model_pointwise(self.children@);
            assert(self.model().children.subrange(0, 0) =~= Seq::<SinkModel>::empty());
        }
        while i < n
            invariant
                n == self.children@.len(),
                i <= n,
                self.model().children.len() == n,
                child_floor <= 5,
                child_floor as int == crate::model::sinks_floor(
                    self.model().children.subrange(0, i as int),
                ),
            decreases n - i,
        {
            proof {
                lemma_sinks_model_pointwise(self.children@);
            }
            let s = &self.children[i];
            let f: u8 = match s {
                Sink::Nested(d) => {
                    proof {
                        assert(decreases_to!(self.children => self.children@));
                        assert(decreases_to!(self.children@ => self.children@[i as int]));
                    }
                    (&**d).enabled_floor()
                },
                _ => 0u8,
            };
            proof {
                let prefix = self.model().children.subrange(0, i as int);
                let next = self.model().children.subrange(0, i + 1);
                assert(next.subrange(0, i as int) =~= prefix);
                assert(next[i as int] == self.model().children[i as int]);
                assert(f as int == crate::model::sink_floor(self.model().children[i as int]));
            }
            if f < child_floor {
                child_floor = f;
            }
            i = i + 1;
        }
        proof {
            assert(self.model().children.subrange(0, n as int) =~= self.model().children);
        }
        let own = self.filter.floor();
        if own > child_floor {
            own
        } else {
            child_floor
        }
    }

    /// Routes one record through this node: filter, then format, then fan
    /// out to every child in registration order.
    pub fn handle(&mut self, record: &Record)
        ensures
            final(self).model() == node_handle(old(self).model(), record.level, record.message@),
    {
        self.handle_text(record.level, &record.message);
    }

    /// Routes one record, given its severity and the text rendered so far.
    ///
    /// A nested node re-enters here, so the text a child sees is the text its
    /// ancestors have already assembled.
    pub fn handle_text(&mut self, level: Level, text: &String)
        ensures
            final(self).model() == node_handle(old(self).model(), level, text@),
        decreases *old(self),
    {
        if !self.filter.passes(level) {
            return ;
        }
        let rendered = apply_formatter(&self.formatter, level, text);
        let mut pending: Vec<Sink> = Vec::new();
        core::mem::swap(&mut self.children, &mut pending);
        let mut done: Vec<Sink> = Vec::new();
        while pending.len() > 0
            invariant
                self.filter == old(self).filter,
                self.formatter == old(self).formatter,
                filter_passes(old(self).filter, level),
                rendered@ == crate::format::format_applied(
                    formatter_model(&old(self).formatter),
                    level,
                    text@,
                ),
                done@.len() + pending@.len() == old(self).children@.len(),
                forall|j: int|
                    0 <= j < pending@.len() ==> #[trigger] pending@[j] == old(self).children@[done@.len() + j],
                forall|j: int|
                    0 <= j < done@.len() ==> (#[trigger] done@[j]).model() == sink_accept(
                        old(self).children@[j].model(),
                        level,
                        rendered@,
                    ),
            decreases pending@.len(),
        {
            let ghost k = done@.len() as int;
            let mut s = pending.remove(0);
            proof {
                assert(s == old(self).children@[k]);
                assert(decreases_to!(old(self).children => old(self).children@));
                assert(decreases_to!(old(self).children@ => old(self).children@[k]));
            }
            s.accept(level, &rendered);
            done.push(s);
            assert(forall|j: int|
                0 <= j < pending@.len() ==> #[trigger] pending@[j] == old(self).children@[done@.len() + j]);
        }
        self.children = done;
        proof {
            lemma_sinks_model_pointwise(old(self).children@);
            lemma_sinks_model_pointwise(self.children@);
            lemma_sinks_accept_pointwise(old(self).model().children, level, rendered@);
            assert forall|j: int| 0 <= j < self.children@.len() implies sinks_model(self.children@)[j]
                == crate::model::sinks_accept(old(self).model().children, level, rendered@)[j] by {
                assert(self.children@[j].model() == sink_accept(
                    old(self).children@[j].model(),
                    level,
                    rendered@,
                ));
            }
            assert(sinks_model(self.children@) =~= crate::model::sinks_accept(
                old(self).model().children,
                level,
                rendered@,
            ));
            assert(self.model() =~= node_handle(old(self).model(), level, text@));
        }
    }

    /// Propagates a flush signal to every child in registration order; a
    /// nested node recurses further.  Safe to call repeatedly; it returns
    /// only once every reachable sink has taken the signal.
    pub fn flush(&mut self)
        ensures
            final(self).model() == node_flush(old(self).model()),
        decreases *old(self),
    {
        let mut pending: Vec<Sink> = Vec::new();
        core::mem::swap(&mut self.children, &mut pending);
        let mut done: Vec<Sink> = Vec::new();
        while pending.len() > 0
            invariant
                self.filter == old(self).filter,
                self.formatter == old(self).formatter,
                done@.len() + pending@.len() == old(self).children@.len(),
                forall|j: int|
                    0 <= j < pending@.len() ==> #[trigger] pending@[j] == old(self).children@[done@.len() + j],
                forall|j: int|
                    0 <= j < done@.len() ==> (#[trigger] done@[j]).model() == sink_flush(
                        old(self).children@[j].model(),
                    ),
            decreases pending@.len(),
        {
            let ghost k = done@.len() as int;
            let mut s = pending.remove(0);
            proof {
                assert(s == old(self).children@[k]);
                assert(decreases_to!(old(self).children => old(self).children@));
                assert(decreases_to!(old(self).children@ => old(self).children@[k]));
            }
            s.flush();
            done.push(s);
        }
        self.children = done;
        proof {
            lemma_sinks_model_pointwise(old(self).children@);
            lemma_sinks_model_pointwise(self.children@);
            lemma_sinks_flush_pointwise(old(self).model().children);
            assert forall|j: int| 0 <= j < self.children@.len() implies sinks_model(self.children@)[j]
                == crate::model::sinks_flush(old(self).model().children)[j] by {
                assert(self.children@[j].model() == sink_flush(old(self).children@[j].model()));
            }
            assert(sinks_model(self.children@) =~= crate::model::sinks_flush(
                old(self).model().children,
            ));
            assert(self.model() =~= node_flush(old(self).model()));
        }
    }
}

impl Sink {
    /// A writer sink over a fresh owned stream.
    pub fn writer() -> (r: Sink)
        ensures
            r.model() == (SinkModel::Writer { lines: Seq::<Seq<char>>::empty() }),
    {
        Sink::Writer(WriterSink::new())
    }

    /// An open queue sink with nothing enqueued.
    pub fn queue() -> (r: Sink)
        ensures
            r.model() == (SinkModel::Queue {
                items: Seq::<Seq<char>>::empty(),
                closed: false,
                dropped: 0,
            }),
    {
        Sink::Queue(QueueSink::new())
    }

    /// A queue sink wrapping an existing queue (for example one whose
    /// receiver is already known to have disconnected).
    pub fn from_queue(q: QueueSink) -> (r: Sink)
        ensures
            r.model() == (SinkModel::Queue {
                items: q.model(),
                closed: q.is_closed(),
                dropped: q.dropped_model(),
            }),
    {
        Sink::Queue(q)
    }

    /// A nested dispatch tree registered as a sink.
    pub fn nested(d: Dispatch) -> (r: Sink)
        ensures
            r.model() == (SinkModel::Nested { node: d.model() }),
    {
        Sink::Nested(Box::new(d))
    }

    /// A fresh custom callback hook registered as a sink.
    pub fn callback() -> (r: Sink)
        ensures
            r.model() == (SinkModel::Callback {
                texts: Seq::<Seq<char>>::empty(),
                flushes: 0,
            }),
    {
        Sink::Callback(CallbackSink::new())
    }

    /// Hands one rendered text to this sink: a writer or queue appends the
    /// terminated line, a hook takes the text as-is, a nested tree routes it.
    pub fn accept(&mut self, level: Level, text: &String)
        ensures
            final(self).model() == sink_accept(old(self).model(), level, text@),
        decreases *old(self),
    {
        match self {
            Sink::Writer(w) => w.write_line(text),
            Sink::Queue(q) => q.enqueue_line(text),
            Sink::Nested(d) => (&mut **d).handle_text(level, text),
            Sink::Callback(c) => c.accept_text(text),
        }
    }

    /// Takes a flush signal: a nested tree propagates it, a hook is notified,
    /// writers and queues have nothing buffered beyond what is committed.
    pub fn flush(&mut self)
        ensures
            final(self).model() == sink_flush(old(self).model()),
        decreases *old(self),
    {
        match self {
            Sink::Writer(w) => w.flush(),
            Sink::Queue(q) => q.flush(),
            Sink::Nested(d) => (&mut **d).flush(),
            Sink::Callback(c) => c.flush(),
        }
    }

    /// Read access to the writer inside this sink, if it is a writer sink.
    pub fn as_writer(&self) -> (r: Option<&WriterSink>)
        ensures
            match r {
                Some(w) => self.model() == (SinkModel::Writer { lines: w.model() }),
                None => !(self.model() is Writer),
            },
    {
        match self {
            Sink::Writer(w) => Some(w),
            _ => None,
        }
    }

    /// Read access to the hook inside this sink, if it is a callback sink.
    pub fn as_callback(&self) -> (r: Option<&CallbackSink>)
        ensures
            match r {
                Some(c) => self.model() == (SinkModel::Callback {
                    texts: c.model(),
                    flushes: c.flushes_model(),
                }),
                None => !(self.model() is Callback),
            },
    {
        match self {
            Sink::Callback(c) => Some(c),
            _ => None,
        }
    }

    /// The queue inside this sink, if it is a queue sink.
    pub fn into_queue(self) -> (r: Option<QueueSink>)
        ensures
            match r {
                Some(q) => self.model() == (SinkModel::Queue {
                    items: q.model(),
                    closed: q.is_closed(),
                    dropped: q.dropped_model(),
                }),
                None => !(self.model() is Queue),
            },
    {
        match self {
            Sink::Queue(q) => Some(q),
            _ => None,
        }
    }

    /// The writer inside this sink, if it is a writer sink.
    pub fn into_writer(self) -> (r: Option<WriterSink>)
        ensures
            match r {
                Some(w) => self.model() == (SinkModel::Writer { lines: w.model() }),
                None => !(self.model() is Writer),
            },
    {
        match self {
            Sink::Writer(w) => Some(w),
            _ => None,
        }
    }

    /// The callback hook inside this sink, if it is a callback sink.
    pub fn into_callback(self) -> (r: Option<CallbackSink>)
        ensures
            match r {
                Some(c) => self.model() == (SinkModel::Callback {
                    texts: c.model(),
                    flushes: c.flushes_model(),
                }),
                None => !(self.model() is Callback),
            },
    {
        match self {
            Sink::Callback(c) => Some(c),
            _ => None,
        }
    }

    /// The nested tree inside this sink, if it is a nested dispatch node.
    pub fn into_nested(self) -> (r: Option<Dispatch>)
        ensures
            match r {
                Some(d) => self.model() == (SinkModel::Nested { node: d.model() }),
                None => !(self.model() is Nested),
            },
    {
        match self {
            Sink::Nested(d) => Some(*d),
            _ => None,
        }
    }
}

} // verus!
