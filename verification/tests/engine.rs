//! Behavior of the dispatch tree: fan-out, filtering, formatting, flushing.

use logtree::dispatch::{Dispatch, Sink};
use logtree::format::Formatter;
use logtree::level::{Level, LevelFilter};
use logtree::record::Record;
use logtree::sink::QueueSink;

fn rec(level: Level, message: &str) -> Record {
    Record::new(level, String::from("app"), String::from(message))
}

fn writer_lines(sink: Sink) -> Vec<String> {
    let w = sink.into_writer().expect("expected a writer sink");
    w.lines().clone()
}

#[test]
fn two_identical_emits_yield_two_identical_lines_in_order() {
    let mut d = Dispatch::new().chain(Sink::writer());
    let r = rec(Level::Info, "hello");
    d.handle(&r);
    d.handle(&r);
    let mut children = d.into_children();
    let lines = writer_lines(children.remove(0));
    assert_eq!(lines, vec![String::from("hello\n"), String::from("hello\n")]);
}

#[test]
fn level_gate_all_pairs() {
    let filters = vec![
        LevelFilter::Off,
        LevelFilter::Error,
        LevelFilter::Warn,
        LevelFilter::Info,
        LevelFilter::Debug,
        LevelFilter::Trace,
    ];
    let levels = vec![
        Level::Trace,
        Level::Debug,
        Level::Info,
        Level::Warn,
        Level::Error,
    ];
    for f in filters {
        for l in levels.clone() {
            let mut d = Dispatch::new().level(f).chain(Sink::writer());
            d.handle(&rec(l, "m"));
            let mut children = d.into_children();
            let lines = writer_lines(children.remove(0));
            let expected = if l.rank() >= f.floor() { 1 } else { 0 };
            assert_eq!(lines.len(), expected, "filter {:?}, level {:?}", f, l);
        }
    }
}

#[test]
fn info_floor_drops_trace_and_debug_and_prefixes_the_rest() {
    let mut d = Dispatch::new()
        .format(Formatter::LevelPrefix)
        .level(LevelFilter::Info)
        .chain(Sink::writer());
    for l in vec![
        Level::Trace,
        Level::Debug,
        Level::Info,
        Level::Warn,
        Level::Error,
    ] {
        d.handle(&rec(l, "m"));
    }
    let mut children = d.into_children();
    let lines = writer_lines(children.remove(0));
    assert_eq!(
        lines,
        vec![
            String::from("[INFO] m\n"),
            String::from("[WARN] m\n"),
            String::from("[ERROR] m\n"),
        ]
    );
}

#[test]
fn fixed_prefix_and_suffix_formatters() {
    let mut d = Dispatch::new()
        .format(Formatter::Prefix(String::from("p:")))
        .chain(Sink::writer());
    d.handle(&rec(Level::Warn, "m"));
    let mut children = d.into_children();
    assert_eq!(writer_lines(children.remove(0)), vec![String::from("p:m\n")]);

    let mut d = Dispatch::new()
        .format(Formatter::Suffix(String::from("!")))
        .chain(Sink::writer());
    d.handle(&rec(Level::Warn, "m"));
    let mut children = d.into_children();
    assert_eq!(writer_lines(children.remove(0)), vec![String::from("m!\n")]);
}

#[test]
fn nested_formatters_wrap_outward_in() {
    // The root applies its own formatter first; the nested child then wraps
    // the text it is handed.
    let inner = Dispatch::new()
        .format(Formatter::Prefix(String::from("B:")))
        .chain(Sink::writer());
    let mut root = Dispatch::new()
        .format(Formatter::Prefix(String::from("A:")))
        .chain(Sink::nested(inner));
    root.handle(&rec(Level::Info, "msg"));
    let mut children = root.into_children();
    let inner = children.remove(0).into_nested().expect("nested sink");
    let mut inner_children = inner.into_children();
    let lines = writer_lines(inner_children.remove(0));
    assert_eq!(lines, vec![String::from("B:A:msg\n")]);
}

#[test]
fn child_filter_restricts_but_cannot_loosen() {
    // A Debug record passes the root (Trace floor) but not the child's Warn
    // floor; the child's sibling writer still receives it.
    let strict = Dispatch::new().level(LevelFilter::Warn).chain(Sink::writer());
    let mut root = Dispatch::new().chain(Sink::nested(strict)).chain(Sink::writer());
    root.handle(&rec(Level::Debug, "m"));
    let mut children = root.into_children();
    let strict = children.remove(0).into_nested().expect("nested sink");
    let mut strict_children = strict.into_children();
    assert_eq!(writer_lines(strict_children.remove(0)).len(), 0);
    assert_eq!(writer_lines(children.remove(0)), vec![String::from("m\n")]);
}

#[test]
fn fanout_reaches_both_sinks_despite_first_failing() {
    let mut dead = QueueSink::new();
    dead.close_receiver();
    let mut d = Dispatch::new()
        .chain(Sink::from_queue(dead))
        .chain(Sink::writer());
    d.handle(&rec(Level::Error, "boom"));
    let mut children = d.into_children();
    let mut q = children.remove(0).into_queue().expect("queue sink");
    assert_eq!(q.dropped_count(), 1);
    assert!(q.recv().is_none());
    assert_eq!(writer_lines(children.remove(0)), vec![String::from("boom\n")]);
}

#[test]
fn flush_keeps_every_enqueued_item_in_order() {
    let nested = Dispatch::new().chain(Sink::queue());
    let mut d = Dispatch::new().chain(Sink::queue()).chain(Sink::nested(nested));
    d.handle(&rec(Level::Info, "one"));
    d.handle(&rec(Level::Info, "two"));
    d.flush();
    let mut children = d.into_children();
    let mut q = children.remove(0).into_queue().expect("queue sink");
    assert_eq!(q.recv().as_deref(), Some("one\n"));
    assert_eq!(q.recv().as_deref(), Some("two\n"));
    assert!(q.recv().is_none());
    let nested = children.remove(0).into_nested().expect("nested sink");
    let mut nested_children = nested.into_children();
    let mut nq = nested_children.remove(0).into_queue().expect("queue sink");
    assert_eq!(nq.recv().as_deref(), Some("one\n"));
    assert_eq!(nq.recv().as_deref(), Some("two\n"));
    assert!(nq.recv().is_none());
}

#[test]
fn queue_delivers_exact_text_with_embedded_newline_and_non_ascii() {
    let mut d = Dispatch::new().chain(Sink::queue());
    let r = rec(Level::Info, "héllo\nworld");
    d.handle(&r);
    d.handle(&r);
    d.flush();
    let mut children = d.into_children();
    let mut q = children.remove(0).into_queue().expect("queue sink");
    assert_eq!(q.recv().as_deref(), Some("héllo\nworld\n"));
    assert_eq!(q.recv().as_deref(), Some("héllo\nworld\n"));
    assert!(q.recv().is_none());
}

#[test]
fn callback_sink_gets_raw_text_and_flush_notifications() {
    let mut d = Dispatch::new()
        .format(Formatter::LevelPrefix)
        .chain(Sink::callback());
    d.handle(&rec(Level::Warn, "w"));
    d.flush();
    d.flush();
    let mut children = d.into_children();
    let c = children.remove(0).into_callback().expect("callback sink");
    assert_eq!(c.flush_count(), 2);
    assert_eq!(c.into_received(), vec![String::from("[WARN] w")]);
}

#[test]
fn childless_node_has_no_observable_effect() {
    let mut d = Dispatch::new();
    d.handle(&rec(Level::Error, "m"));
    assert_eq!(d.children_len(), 0);
    assert_eq!(d.enabled_floor(), 5);
}

#[test]
fn record_carries_source_metadata() {
    let r = Record::with_source(
        Level::Debug,
        String::from("app::inner"),
        String::from("m"),
        Some(String::from("app::inner")),
        Some(String::from("inner.rs")),
        Some(17),
    );
    assert_eq!(r.level, Level::Debug);
    assert_eq!(r.target, "app::inner");
    assert_eq!(r.message, "m");
    assert_eq!(r.module.as_deref(), Some("app::inner"));
    assert_eq!(r.file.as_deref(), Some("inner.rs"));
    assert_eq!(r.line, Some(17));
}
