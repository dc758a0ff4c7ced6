//! The mathematical model of a dispatch tree.
//!
//! A tree is mirrored by [`NodeModel`] and [`SinkModel`]; handling a record,
//! flushing, and the level gate are total functions over that mirror.  The
//! executable tree in [`crate::dispatch`] promises to follow these functions
//! step for step, so everything proved here holds of the running engine.

use vstd::prelude::*;

use crate::format::{format_applied, FormatterModel};
use crate::level::{filter_floor, filter_passes, severity, Level, LevelFilter};

verus! {

broadcast use vstd::seq::group_seq_axioms, vstd::std_specs::vec::group_vec_axioms;

/// Caps a saturating event counter at the width of its executable field.
pub open spec fn bumped(n: nat) -> nat {
    if n < u64::MAX { n + 1 } else { n }
}

/// Rendered text plus the line terminator a terminal sink appends.
pub open spec fn line_of(text: Seq<char>) -> Seq<char> {
    text + "\n"@
}

/// Ghost mirror of one dispatch node: its filter, its optional formatter,
/// and its children in registration order.
#[verifier::ext_equal]
pub struct NodeModel {
    pub filter: LevelFilter,
    pub formatter: Option<FormatterModel>,
    pub children: Seq<SinkModel>,
}

/// Ghost mirror of one sink: what each variant has accumulated.
#[verifier::ext_equal]
pub enum SinkModel {
    /// Lines committed to the writer's owned stream, oldest first.
    Writer { lines: Seq<Seq<char>> },
    /// Items enqueued and not yet received, whether the receiver has
    /// disconnected, and how many deliveries that has cost.
    Queue { items: Seq<Seq<char>>, closed: bool, dropped: nat },
    /// A nested dispatch tree.
    Nested { node: NodeModel },
    /// Rendered texts and flush notifications handed to a custom hook.
    Callback { texts: Seq<Seq<char>>, flushes: nat },
}

/// One record arriving at a node: if the record's severity passes the node's
/// filter, the node applies its own formatter to the text rendered so far and
/// forwards the result to every child in registration order; otherwise the
/// node is left untouched.
pub open spec fn node_handle(n: NodeModel, level: Level, text: Seq<char>) -> NodeModel
    decreases n,
{
    if !filter_passes(n.filter, level) {
        n
    } else {
        let rendered = format_applied(n.formatter, level, text);
        NodeModel {
            filter: n.filter,
            formatter: n.formatter,
            children: sinks_accept(n.children, level, rendered),
        }
    }
}

/// One rendered text arriving at each of these sinks, in registration order.
pub open spec fn sinks_accept(ss: Seq<SinkModel>, level: Level, text: Seq<char>) -> Seq<SinkModel>
    decreases ss,
{
    if ss.len() == 0 {
        Seq::empty()
    } else {
        sinks_accept(ss.subrange(0, ss.len() - 1), level, text).push(
            sink_accept(ss[ss.len() - 1], level, text),
        )
    }
}

/// One rendered text arriving at a sink.
pub open spec fn sink_accept(s: SinkModel, level: Level, text: Seq<char>) -> SinkModel
    decreases s,
{
    match s {
        SinkModel::Writer { lines } => SinkModel::Writer { lines: lines.push(line_of(text)) },
        SinkModel::Queue { items, closed, dropped } => {
            if closed {
                SinkModel::Queue { items, closed, dropped: bumped(dropped) }
            } else {
                SinkModel::Queue { items: items.push(line_of(text)), closed, dropped }
            }
        },
        SinkModel::Nested { node } => SinkModel::Nested { node: node_handle(node, level, text) },
        SinkModel::Callback { texts, flushes } => SinkModel::Callback {
            texts: texts.push(text),
            flushes,
        },
    }
}

/// A flush signal propagating through a node: every child is flushed, in
/// registration order.
pub open spec fn node_flush(n: NodeModel) -> NodeModel
    decreases n,
{
    NodeModel { filter: n.filter, formatter: n.formatter, children: sinks_flush(n.children) }
}

/// A flush signal arriving at each of these sinks, in registration order.
pub open spec fn sinks_flush(ss: Seq<SinkModel>) -> Seq<SinkModel>
    decreases ss,
{
    if ss.len() == 0 {
        Seq::empty()
    } else {
        sinks_flush(ss.subrange(0, ss.len() - 1)).push(sink_flush(ss[ss.len() - 1]))
    }
}

/// A flush signal arriving at a sink.  A writer's lines are committed as they
/// are written and an enqueued item is observable at once, so neither changes;
/// a hook is handed the notification; a nested tree propagates it.
pub open spec fn sink_flush(s: SinkModel) -> SinkModel
    decreases s,
{
    match s {
        SinkModel::Writer { lines } => SinkModel::Writer { lines },
        SinkModel::Queue { items, closed, dropped } => SinkModel::Queue { items, closed, dropped },
        SinkModel::Nested { node } => SinkModel::Nested { node: node_flush(node) },
        SinkModel::Callback { texts, flushes } => SinkModel::Callback {
            texts,
            flushes: bumped(flushes),
        },
    }
}

/// Whether a record of severity `level` can reach any sink below this node:
/// it must pass the node's own filter and some child must be reachable.
pub open spec fn node_enabled(n: NodeModel, level: Level) -> bool
    decreases n,
{
    &&& filter_passes(n.filter, level)
    &&& exists|i: int| 0 <= i < n.children.len() && sink_enabled(#[trigger] n.children[i], level)
}

/// Whether a record of severity `level` can reach a sink: a terminal sink is
/// always reachable, a nested tree by its own gate.
pub open spec fn sink_enabled(s: SinkModel, level: Level) -> bool
    decreases s,
{
    match s {
        SinkModel::Nested { node } => node_enabled(node, level),
        _ => true,
    }
}

/// Fan-out acts on each sink by itself: what lands in one child depends only
/// on that child and the rendered text, never on its siblings.
pub proof fn lemma_sinks_accept_pointwise(ss: Seq<SinkModel>, level: Level, text: Seq<char>)
    ensures
        sinks_accept(ss, level, text).len() == ss.len(),
        forall|i: int|
            0 <= i < ss.len() ==> sinks_accept(ss, level, text)[i] == sink_accept(
                #[trigger] ss[i],
                level,
                text,
            ),
    decreases ss.len(),
{
    if ss.len() > 0 {
        lemma_sinks_accept_pointwise(ss.subrange(0, ss.len() - 1), level, text);
        assert(forall|i: int|
            0 <= i < ss.len() - 1 ==> ss.subrange(0, ss.len() - 1)[i] == #[trigger] ss[i]);
    }
}

/// A flush signal reaches each sink by itself, in registration order.
pub proof fn lemma_sinks_flush_pointwise(ss: Seq<SinkModel>)
    ensures
        sinks_flush(ss).len() == ss.len(),
        forall|i: int| 0 <= i < ss.len() ==> sinks_flush(ss)[i] == sink_flush(#[trigger] ss[i]),
    decreases ss.len(),
{
    if ss.len() > 0 {
        lemma_sinks_flush_pointwise(ss.subrange(0, ss.len() - 1));
        assert(forall|i: int|
            0 <= i < ss.len() - 1 ==> ss.subrange(0, ss.len() - 1)[i] == #[trigger] ss[i]);
    }
}

/// The least severity rank that can reach a sink below this node: the node's
/// own floor joined with the lowest floor among its children; 5 when nothing
/// can pass.  A logger facade precomputes this for its fast path.
pub open spec fn node_floor(n: NodeModel) -> int
    decreases n,
{
    let cf = sinks_floor(n.children);
    if filter_floor(n.filter) > cf {
        filter_floor(n.filter)
    } else {
        cf
    }
}

/// The lowest floor among these sinks; 5 when there is none.
pub open spec fn sinks_floor(ss: Seq<SinkModel>) -> int
    decreases ss,
{
    if ss.len() == 0 {
        5
    } else {
        let rest = sinks_floor(ss.subrange(0, ss.len() - 1));
        let f = sink_floor(ss[ss.len() - 1]);
        if f < rest {
            f
        } else {
            rest
        }
    }
}

/// The least severity rank that can reach this sink: 0 for a terminal sink,
/// a nested tree's own floor otherwise.
pub open spec fn sink_floor(s: SinkModel) -> int
    decreases s,
{
    match s {
        SinkModel::Nested { node } => node_floor(node),
        _ => 0,
    }
}

/// The precomputed floor is exact: a severity can reach a sink below the node
/// if and only if its rank is at least the node's floor.
pub proof fn lemma_floor_is_gate(n: NodeModel)
    ensures
        0 <= node_floor(n) <= 5,
        forall|l: Level| (severity(l) >= node_floor(n)) == node_enabled(n, l),
    decreases n,
{
    lemma_sinks_floor_is_gate(n.children);
}

/// The lowest floor among sinks is exact for reachability of some sink.
pub proof fn lemma_sinks_floor_is_gate(ss: Seq<SinkModel>)
    ensures
        0 <= sinks_floor(ss) <= 5,
        forall|l: Level|
            (severity(l) >= sinks_floor(ss)) == exists|i: int|
                0 <= i < ss.len() && sink_enabled(#[trigger] ss[i], l),
    decreases ss,
{
    if ss.len() > 0 {
        let prefix = ss.subrange(0, ss.len() - 1);
        lemma_sinks_floor_is_gate(prefix);
        lemma_sink_floor_is_gate(ss[ss.len() - 1]);
        assert forall|l: Level| (severity(l) >= sinks_floor(ss)) implies exists|i: int|
            0 <= i < ss.len() && sink_enabled(#[trigger] ss[i], l) by {
            if severity(l) >= sink_floor(ss[ss.len() - 1]) {
                assert(sink_enabled(ss[ss.len() - 1], l));
            } else {
                let i = choose|i: int| 0 <= i < prefix.len() && sink_enabled(#[trigger] prefix[i], l);
                assert(sink_enabled(ss[i], l));
            }
        }
        assert forall|l: Level| (exists|i: int|
            0 <= i < ss.len() && sink_enabled(#[trigger] ss[i], l)) implies severity(l)
            >= sinks_floor(ss) by {
            let i = choose|i: int| 0 <= i < ss.len() && sink_enabled(#[trigger] ss[i], l);
            if i < ss.len() - 1 {
                assert(prefix[i] == ss[i]);
                assert(sink_enabled(prefix[i], l));
            }
        }
    }
}

/// A sink's floor is exact for its reachability.
pub proof fn lemma_sink_floor_is_gate(s: SinkModel)
    ensures
        0 <= sink_floor(s) <= 5,
        forall|l: Level| (severity(l) >= sink_floor(s)) == sink_enabled(s, l),
    decreases s,
{
    match s {
        SinkModel::Nested { node } => {
            lemma_floor_is_gate(node);
            assert forall|l: Level| (severity(l) >= sink_floor(s)) == sink_enabled(s, l) by {
                assert((severity(l) >= node_floor(node)) == node_enabled(node, l));
            }
        },
        _ => {
            assert forall|l: Level| (severity(l) >= sink_floor(s)) == sink_enabled(s, l) by {
                assert(severity(l) >= 0);
            }
        },
    }
}

/// Handling a record never changes the tree's structure, so its floor stays.
pub proof fn lemma_handle_keeps_floor(n: NodeModel, level: Level, text: Seq<char>)
    ensures
        node_floor(node_handle(n, level, text)) == node_floor(n),
    decreases n,
{
    if filter_passes(n.filter, level) {
        let rendered = format_applied(n.formatter, level, text);
        lemma_sinks_accept_keeps_floor(n.children, level, rendered);
    }
}

/// Fan-out never changes the sinks' structure, so their lowest floor stays.
pub proof fn lemma_sinks_accept_keeps_floor(ss: Seq<SinkModel>, level: Level, text: Seq<char>)
    ensures
        sinks_floor(sinks_accept(ss, level, text)) == sinks_floor(ss),
    decreases ss,
{
    if ss.len() > 0 {
        let prefix = ss.subrange(0, ss.len() - 1);
        lemma_sinks_accept_keeps_floor(prefix, level, text);
        lemma_sink_accept_keeps_floor(ss[ss.len() - 1], level, text);
        let stepped = sinks_accept(ss, level, text);
        assert(stepped.subrange(0, stepped.len() - 1) =~= sinks_accept(prefix, level, text));
    }
}

/// Accepting a text never changes a sink's structure, so its floor stays.
pub proof fn lemma_sink_accept_keeps_floor(s: SinkModel, level: Level, text: Seq<char>)
    ensures
        sink_floor(sink_accept(s, level, text)) == sink_floor(s),
    decreases s,
{
    match s {
        SinkModel::Nested { node } => {
            lemma_handle_keeps_floor(node, level, text);
        },
        _ => {},
    }
}

/// A flush never changes the tree's structure, so its floor stays.
pub proof fn lemma_flush_keeps_floor(n: NodeModel)
    ensures
        node_floor(node_flush(n)) == node_floor(n),
    decreases n,
{
    lemma_sinks_flush_keeps_floor(n.children);
}

/// A flush never changes the sinks' structure, so their lowest floor stays.
pub proof fn lemma_sinks_flush_keeps_floor(ss: Seq<SinkModel>)
    ensures
        sinks_floor(sinks_flush(ss)) == sinks_floor(ss),
    decreases ss,
{
    if ss.len() > 0 {
        let prefix = ss.subrange(0, ss.len() - 1);
        lemma_sinks_flush_keeps_floor(prefix);
        lemma_sink_flush_keeps_floor(ss[ss.len() - 1]);
        let stepped = sinks_flush(ss);
        assert(stepped.subrange(0, stepped.len() - 1) =~= sinks_flush(prefix));
    }
}

/// A flush never changes a sink's structure, so its floor stays.
pub proof fn lemma_sink_flush_keeps_floor(s: SinkModel)
    ensures
        sink_floor(sink_flush(s)) == sink_floor(s),
    decreases s,
{
    match s {
        SinkModel::Nested { node } => {
            lemma_flush_keeps_floor(node);
        },
        _ => {},
    }
}

/// The fast path is sound: where no sink is reachable for a severity, handing
/// the record to the tree would change nothing, so the record can be skipped.
pub proof fn lemma_gate_skip(n: NodeModel, level: Level, text: Seq<char>)
    requires
        !node_enabled(n, level),
    ensures
        node_handle(n, level, text) == n,
    decreases n,
{
    if filter_passes(n.filter, level) {
        let rendered = format_applied(n.formatter, level, text);
        lemma_sinks_accept_pointwise(n.children, level, rendered);
        assert forall|i: int| 0 <= i < n.children.len() implies sinks_accept(
            n.children,
            level,
            rendered,
        )[i] == n.children[i] by {
            assert(!sink_enabled(n.children[i], level));
            match n.children[i] {
                SinkModel::Nested { node } => {
                    lemma_gate_skip(node, level, rendered);
                },
                _ => {},
            }
        }
        assert(sinks_accept(n.children, level, rendered) =~= n.children);
        assert(node_handle(n, level, text) =~= n);
    }
}

/// The contents of every queue reachable below these sinks, one entry per
/// queue, in registration order, depth first.
pub open spec fn queues_in_sinks(ss: Seq<SinkModel>) -> Seq<Seq<Seq<char>>>
    decreases ss,
{
    if ss.len() == 0 {
        Seq::empty()
    } else {
        queues_in_sinks(ss.subrange(0, ss.len() - 1)) + queues_in_sink(ss[ss.len() - 1])
    }
}

/// The contents of every queue reachable at or below one sink.
pub open spec fn queues_in_sink(s: SinkModel) -> Seq<Seq<Seq<char>>>
    decreases s,
{
    match s {
        SinkModel::Queue { items, .. } => seq![items],
        SinkModel::Nested { node } => queues_in_sinks(node.children),
        _ => Seq::empty(),
    }
}

} // verus!
