//! The engine's guarantees, stated and proved over the tree model.
//!
//! Each law quantifies over whole classes of trees and inputs; the exec
//! functions' contracts tie the running engine to the same model, so the laws
//! hold of it too.

use vstd::prelude::*;

use crate::format::{format_applied, level_name, level_prefix, FormatterModel};
use crate::hooks::starts_with;
use crate::level::{filter_passes, Level, LevelFilter};
use crate::model::{
    bumped, line_of, node_flush, node_handle, queues_in_sink, queues_in_sinks, sink_accept,
    sink_flush, sinks_accept, sinks_flush, NodeModel, SinkModel,
};

verus! {

broadcast use vstd::seq::group_seq_axioms;

/// Fan-out over a single registered sink is that sink accepting the text.
pub proof fn lemma_accept_singleton(s: SinkModel, level: Level, text: Seq<char>)
    ensures
        sinks_accept(seq![s], level, text) == seq![sink_accept(s, level, text)],
{
    assert(seq![s].subrange(0, 0) =~= Seq::<SinkModel>::empty());
    assert(sinks_accept(Seq::<SinkModel>::empty(), level, text) =~= Seq::<SinkModel>::empty());
    assert(sinks_accept(seq![s], level, text) =~= seq![sink_accept(s, level, text)]);
}

/// Fan-out over two registered sinks is each accepting the text, in order.
pub proof fn lemma_accept_pair(a: SinkModel, b: SinkModel, level: Level, text: Seq<char>)
    ensures
        sinks_accept(seq![a, b], level, text) == seq![
            sink_accept(a, level, text),
            sink_accept(b, level, text),
        ],
{
    assert(seq![a, b].subrange(0, 1) =~= seq![a]);
    lemma_accept_singleton(a, level, text);
    assert(sinks_accept(seq![a, b], level, text) =~= seq![
        sink_accept(a, level, text),
        sink_accept(b, level, text),
    ]);
}

/// Idempotent multi-emit: logging the identical message twice through an
/// unfiltered, unformatted, single-writer tree yields exactly two identical
/// rendered lines at that sink, in call order — nothing is deduplicated.
pub proof fn law_idempotent_multi_emit(lines: Seq<Seq<char>>, level: Level, text: Seq<char>)
    ensures
        ({
            let before = NodeModel {
                filter: LevelFilter::Trace,
                formatter: None,
                children: seq![SinkModel::Writer { lines }],
            };
            let after = node_handle(node_handle(before, level, text), level, text);
            after == NodeModel {
                filter: LevelFilter::Trace,
                formatter: None,
                children: seq![
                    SinkModel::Writer { lines: lines.push(line_of(text)).push(line_of(text)) },
                ],
            }
        }),
{
    let before = NodeModel {
        filter: LevelFilter::Trace,
        formatter: None,
        children: seq![SinkModel::Writer { lines }],
    };
    assert(filter_passes(LevelFilter::Trace, level));
    lemma_accept_singleton(SinkModel::Writer { lines }, level, text);
    let mid = node_handle(before, level, text);
    assert(mid.children == seq![SinkModel::Writer { lines: lines.push(line_of(text)) }]);
    lemma_accept_singleton(SinkModel::Writer { lines: lines.push(line_of(text)) }, level, text);
    let after = node_handle(mid, level, text);
    assert(after =~= NodeModel {
        filter: LevelFilter::Trace,
        formatter: None,
        children: seq![
            SinkModel::Writer { lines: lines.push(line_of(text)).push(line_of(text)) },
        ],
    });
}

/// Level-gate correctness: for every configured minimum level and every
/// emitted severity, the record reaches the sink under the node — as exactly
/// one line, formatted by the node — if and only if the severity is at least
/// the configured minimum; otherwise the node is left exactly as it was.
pub proof fn law_level_gate(
    filter: LevelFilter,
    fmt: Option<FormatterModel>,
    lines: Seq<Seq<char>>,
    level: Level,
    text: Seq<char>,
)
    ensures
        ({
            let before = NodeModel {
                filter,
                formatter: fmt,
                children: seq![SinkModel::Writer { lines }],
            };
            let after = node_handle(before, level, text);
            &&& filter_passes(filter, level) ==> after.children == seq![
                SinkModel::Writer {
                    lines: lines.push(line_of(format_applied(fmt, level, text))),
                },
            ]
            &&& !filter_passes(filter, level) ==> after == before
        }),
{
    if filter_passes(filter, level) {
        lemma_accept_singleton(
            SinkModel::Writer { lines },
            level,
            format_applied(fmt, level, text),
        );
    }
}

/// Two different severities never share a `"[LEVEL] "` prefix: the prefixes
/// differ in their second character.
pub proof fn lemma_level_prefix_exclusive(t: Seq<char>, a: Level, b: Level)
    requires
        a != b,
    ensures
        !(starts_with(t, level_prefix(a)) && starts_with(t, level_prefix(b))),
{
    reveal_strlit("[");
    reveal_strlit("] ");
    reveal_strlit("TRACE");
    reveal_strlit("DEBUG");
    reveal_strlit("INFO");
    reveal_strlit("WARN");
    reveal_strlit("ERROR");
    if starts_with(t, level_prefix(a)) && starts_with(t, level_prefix(b)) {
        assert(("["@ + level_name(a))[1] == level_name(a)[0]);
        assert(level_prefix(a)[1] == level_name(a)[0]);
        assert(("["@ + level_name(b))[1] == level_name(b)[0]);
        assert(level_prefix(b)[1] == level_name(b)[0]);
        assert(t.subrange(0, level_prefix(a).len() as int)[1] == t[1]);
        assert(t.subrange(0, level_prefix(b).len() as int)[1] == t[1]);
        assert(level_name(a)[0] == level_name(b)[0]);
        assert(false);
    }
}

/// A line rendered for a severity carries that severity's prefix.
pub proof fn lemma_rendered_line_prefixed(l: Level, t: Seq<char>)
    ensures
        starts_with(line_of(level_prefix(l) + t), level_prefix(l)),
{
    let line = line_of(level_prefix(l) + t);
    assert(line.subrange(0, level_prefix(l).len() as int) =~= level_prefix(l));
}

/// Formatter wrapping: with the `"[LEVEL] "` formatter above an `Info` floor,
/// emitting one message at each of three distinct passing severities — in any
/// order — yields exactly one line per severity, each with the corresponding
/// prefix, and no severity's line more than once.
pub proof fn law_formatter_wrapping(
    l1: Level,
    l2: Level,
    l3: Level,
    t1: Seq<char>,
    t2: Seq<char>,
    t3: Seq<char>,
)
    requires
        l1 != l2,
        l1 != l3,
        l2 != l3,
        filter_passes(LevelFilter::Info, l1),
        filter_passes(LevelFilter::Info, l2),
        filter_passes(LevelFilter::Info, l3),
    ensures
        ({
            let before = NodeModel {
                filter: LevelFilter::Info,
                formatter: Some(FormatterModel::LevelPrefix),
                children: seq![SinkModel::Writer { lines: Seq::<Seq<char>>::empty() }],
            };
            let after = node_handle(
                node_handle(node_handle(before, l1, t1), l2, t2),
                l3,
                t3,
            );
            let emitted = seq![l1, l2, l3];
            let lines = seq![
                line_of(level_prefix(l1) + t1),
                line_of(level_prefix(l2) + t2),
                line_of(level_prefix(l3) + t3),
            ];
            &&& after.children == seq![SinkModel::Writer { lines }]
            &&& forall|j: int|
                0 <= j < 3 ==> starts_with(#[trigger] lines[j], level_prefix(emitted[j]))
            &&& forall|j: int, k: int, l: Level|
                0 <= j < 3 && 0 <= k < 3 && #[trigger] starts_with(lines[j], level_prefix(l))
                    && #[trigger] starts_with(lines[k], level_prefix(l)) ==> j == k
        }),
{
    let before = NodeModel {
        filter: LevelFilter::Info,
        formatter: Some(FormatterModel::LevelPrefix),
        children: seq![SinkModel::Writer { lines: Seq::<Seq<char>>::empty() }],
    };
    let emitted = seq![l1, l2, l3];
    let lines = seq![
        line_of(level_prefix(l1) + t1),
        line_of(level_prefix(l2) + t2),
        line_of(level_prefix(l3) + t3),
    ];
    let s0 = Seq::<Seq<char>>::empty();
    let s1 = s0.push(lines[0]);
    let s2 = s1.push(lines[1]);
    let s3 = s2.push(lines[2]);
    lemma_accept_singleton(SinkModel::Writer { lines: s0 }, l1, level_prefix(l1) + t1);
    let n1 = node_handle(before, l1, t1);
    assert(n1.children == seq![SinkModel::Writer { lines: s1 }]);
    lemma_accept_singleton(SinkModel::Writer { lines: s1 }, l2, level_prefix(l2) + t2);
    let n2 = node_handle(n1, l2, t2);
    assert(n2.children == seq![SinkModel::Writer { lines: s2 }]);
    lemma_accept_singleton(SinkModel::Writer { lines: s2 }, l3, level_prefix(l3) + t3);
    let n3 = node_handle(n2, l3, t3);
    assert(n3.children == seq![SinkModel::Writer { lines: s3 }]);
    assert(s3 =~= lines);
    assert(n3.children =~= seq![SinkModel::Writer { lines }]);
    assert forall|j: int| 0 <= j < 3 implies starts_with(
        #[trigger] lines[j],
        level_prefix(emitted[j]),
    ) by {
        lemma_rendered_line_prefixed(emitted[j], seq![t1, t2, t3][j]);
    }
    assert forall|j: int, k: int, l: Level|
        0 <= j < 3 && 0 <= k < 3 && #[trigger] starts_with(lines[j], level_prefix(l))
            && #[trigger] starts_with(lines[k], level_prefix(l)) implies j == k by {
        if emitted[j] != l {
            lemma_level_prefix_exclusive(lines[j], emitted[j], l);
        }
        if emitted[k] != l {
            lemma_level_prefix_exclusive(lines[k], emitted[k], l);
        }
        assert(emitted[j] == emitted[k]);
    }
}

/// Fan-out isolation: two sinks registered under one node each receive the
/// full rendered text independently, in registration order.
pub proof fn law_fanout_isolation(
    a: SinkModel,
    b: SinkModel,
    filter: LevelFilter,
    fmt: Option<FormatterModel>,
    level: Level,
    text: Seq<char>,
)
    requires
        filter_passes(filter, level),
    ensures
        ({
            let before = NodeModel { filter, formatter: fmt, children: seq![a, b] };
            let rendered = format_applied(fmt, level, text);
            node_handle(before, level, text).children == seq![
                sink_accept(a, level, rendered),
                sink_accept(b, level, rendered),
            ]
        }),
{
    lemma_accept_pair(a, b, level, format_applied(fmt, level, text));
}

/// Fan-out isolation under failure: when the first sink's queue receiver has
/// disconnected, delivery to it fails — counted, not raised — and the sibling
/// writer still receives the full line.
pub proof fn law_failed_sibling_isolated(
    items: Seq<Seq<char>>,
    dropped: nat,
    lines: Seq<Seq<char>>,
    level: Level,
    text: Seq<char>,
)
    ensures
        ({
            let before = NodeModel {
                filter: LevelFilter::Trace,
                formatter: None,
                children: seq![
                    SinkModel::Queue { items, closed: true, dropped },
                    SinkModel::Writer { lines },
                ],
            };
            node_handle(before, level, text).children == seq![
                SinkModel::Queue { items, closed: true, dropped: bumped(dropped) },
                SinkModel::Writer { lines: lines.push(line_of(text)) },
            ]
        }),
{
    assert(filter_passes(LevelFilter::Trace, level));
    lemma_accept_pair(
        SinkModel::Queue { items, closed: true, dropped },
        SinkModel::Writer { lines },
        level,
        text,
    );
}

/// Flush completeness: a flush leaves the contents of every reachable queue
/// exactly as they were, queue by queue — no enqueued item is lost and none
/// are reordered, however deep the tree.
pub proof fn law_flush_completeness(n: NodeModel)
    ensures
        queues_in_sinks(node_flush(n).children) == queues_in_sinks(n.children),
{
    lemma_flush_keeps_queues_in_sinks(n.children);
}

/// Flushing a list of sinks keeps every reachable queue's contents.
pub proof fn lemma_flush_keeps_queues_in_sinks(ss: Seq<SinkModel>)
    ensures
        queues_in_sinks(sinks_flush(ss)) == queues_in_sinks(ss),
    decreases ss,
{
    if ss.len() == 0 {
        assert(queues_in_sinks(sinks_flush(ss)) =~= queues_in_sinks(ss));
    } else {
        let prefix = ss.subrange(0, ss.len() - 1);
        let last = ss[ss.len() - 1];
        lemma_flush_keeps_queues_in_sinks(prefix);
        lemma_flush_keeps_queues_in_sink(last);
        let fl = sinks_flush(ss);
        assert(fl.subrange(0, fl.len() - 1) =~= sinks_flush(prefix));
        assert(fl[fl.len() - 1] == sink_flush(last));
        assert(queues_in_sinks(fl) == queues_in_sinks(ss));
    }
}

/// Flushing one sink keeps every queue reachable at or below it.
pub proof fn lemma_flush_keeps_queues_in_sink(s: SinkModel)
    ensures
        queues_in_sink(sink_flush(s)) == queues_in_sink(s),
    decreases s,
{
    match s {
        SinkModel::Nested { node } => {
            lemma_flush_keeps_queues_in_sinks(node.children);
        },
        _ => {},
    }
}

} // verus!
