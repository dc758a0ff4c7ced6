//! Behavior of the global facade: one-shot installation, the fast-path
//! gate, and the verification hook fed from a callback sink.

use logtree::dispatch::{Dispatch, Sink};
use logtree::format::Formatter;
use logtree::hooks::{has_prefix, LogVerify, LogVerifyWrapper};
use logtree::level::{Level, LevelFilter};
use logtree::logger::{AlreadyInstalledError, GlobalLogger, Logger};
use logtree::record::Record;

fn rec(level: Level, message: &str) -> Record {
    Record::new(level, String::from("app"), String::from(message))
}

#[test]
fn second_install_fails_and_first_tree_keeps_serving() {
    let mut g = GlobalLogger::new();
    assert!(g.install(Dispatch::new().chain(Sink::writer())).is_ok());
    let second = Dispatch::new()
        .level(LevelFilter::Off)
        .chain(Sink::writer());
    assert_eq!(g.install(second), Err(AlreadyInstalledError));
    g.log(&rec(Level::Info, "still here"));
    g.flush();
    let l = g.installed_logger().expect("a logger is installed");
    let w = l.root().child_at(0).as_writer().expect("writer sink");
    assert_eq!(w.lines(), &vec![String::from("still here\n")]);
}

#[test]
fn uninstalled_facade_drops_everything() {
    let mut g = GlobalLogger::new();
    assert!(!g.enabled(Level::Error, "app"));
    g.log(&rec(Level::Error, "m"));
    g.flush();
    assert!(g.installed_logger().is_none());
}

#[test]
fn gate_matches_most_permissive_level_anywhere() {
    // Warn floor over a writer next to an Info-floor nested queue: Info is
    // enabled through the nested branch, Debug through neither.
    let nested = Dispatch::new().level(LevelFilter::Info).chain(Sink::queue());
    let tree = Dispatch::new()
        .chain(Sink::nested(nested))
        .chain(Sink::writer());
    let tree = tree.level(LevelFilter::Trace);
    let logger = Logger::seal(tree);
    assert!(logger.enabled(Level::Info, "app"));
    assert!(logger.enabled(Level::Error, "app"));
    // The writer branch is terminal, so even Trace can reach it.
    assert!(logger.enabled(Level::Trace, "app"));

    let strict = Dispatch::new().level(LevelFilter::Warn).chain(Sink::writer());
    let logger = Logger::seal(strict);
    assert!(logger.enabled(Level::Warn, "app"));
    assert!(!logger.enabled(Level::Info, "app"));

    // A childless tree enables nothing at all.
    let logger = Logger::seal(Dispatch::new());
    assert!(!logger.enabled(Level::Error, "app"));
}

#[test]
fn gated_out_records_change_nothing() {
    let tree = Dispatch::new().level(LevelFilter::Error).chain(Sink::writer());
    let mut logger = Logger::seal(tree);
    logger.log(&rec(Level::Trace, "a"));
    logger.log(&rec(Level::Warn, "b"));
    logger.log(&rec(Level::Error, "c"));
    let mut children = logger.into_root().into_children();
    let w = children.remove(0).into_writer().expect("writer sink");
    assert_eq!(w.lines(), &vec![String::from("c\n")]);
}

fn run_hook_scenario(order: Vec<Level>) {
    let mut g = GlobalLogger::new();
    let tree = Dispatch::new()
        .format(Formatter::LevelPrefix)
        .level(LevelFilter::Info)
        .chain(Sink::callback());
    g.install(tree).expect("first installation succeeds");
    for l in order {
        g.log(&rec(l, "hello"));
    }
    g.flush();
    let logger = g.installed_logger().expect("a logger is installed");
    let c = logger.root().child_at(0).as_callback().expect("callback sink");
    let mut verify = LogVerifyWrapper::new();
    let boxed = verify.cloned_boxed_logger();
    assert!(boxed.enabled(Level::Trace, "app"));
    for text in c.received() {
        verify.log(text);
    }
    verify.flush();
    assert!(verify.inner.info, "expected info message to be received");
    assert!(verify.inner.warn, "expected warn message to be received");
    assert!(verify.inner.error, "expected error message to be received");
}

#[test]
fn each_passing_level_prefixed_exactly_once() {
    run_hook_scenario(vec![
        Level::Trace,
        Level::Debug,
        Level::Info,
        Level::Warn,
        Level::Error,
    ]);
}

#[test]
fn each_passing_level_prefixed_exactly_once_reordered() {
    run_hook_scenario(vec![
        Level::Error,
        Level::Trace,
        Level::Warn,
        Level::Debug,
        Level::Info,
    ]);
}

#[test]
fn hook_records_each_severity_once() {
    let mut v = LogVerify::new();
    v.log("[INFO] one");
    assert!(v.info && !v.warn && !v.error);
    v.log("[ERROR] two");
    assert!(v.info && !v.warn && v.error);
    v.log("[WARN] three");
    assert!(v.info && v.warn && v.error);
}

#[test]
fn prefix_check_is_exact() {
    assert!(has_prefix("[WARN] text", "[WARN] "));
    assert!(!has_prefix("[WARN] text", "[INFO] "));
    assert!(!has_prefix("[WARN", "[WARN] "));
    assert!(has_prefix("héllo\nworld", "héllo"));
    assert!(!has_prefix("héllo", "hello"));
}

#[test]
fn cloned_logger_copies_recorded_state() {
    let mut verify = LogVerifyWrapper::new();
    verify.log("[INFO] x");
    let copy = verify.cloned_boxed_logger();
    assert!(copy.inner.info && !copy.inner.warn && !copy.inner.error);
}
