//! The global logger facade: one-time installation, the fast-path level
//! gate, and the logging capability consumed by call sites.

use vstd::prelude::*;

use crate::dispatch::Dispatch;
use crate::level::Level;
use crate::model::{
    lemma_floor_is_gate, lemma_flush_keeps_floor, lemma_gate_skip, lemma_handle_keeps_floor,
    node_enabled, node_floor, node_flush, node_handle, NodeModel,
};
use crate::record::Record;

verus! {

/// A global installation was attempted when a logger was already installed.
/// Non-fatal: the first-installed tree stays authoritative.
#[derive(Clone, Copy, Debug, PartialEq, Eq, Structural)]
pub struct AlreadyInstalledError;

/// The logging capability over one sealed dispatch tree, together with the
/// precomputed most-permissive-level gate, so a disabled call costs a single
/// comparison.
pub struct Logger {
    root: Dispatch,
    max_floor: u8,
}

impl Logger {
    /// Ghost mirror of the sealed tree.
    pub closed spec fn model(&self) -> NodeModel {
        self.root.model()
    }

    /// The precomputed gate agrees with the tree it was computed from.
    pub closed spec fn wf(&self) -> bool {
        self.max_floor as int == node_floor(self.model())
    }

    /// Seals a configured tree into a logger, computing the most permissive
    /// level enabled anywhere in it.
    pub fn seal(root: Dispatch) -> (r: Logger)
        ensures
            r.wf(),
            r.model() == root.model(),
    {
        let max_floor = root.enabled_floor();
        Logger { root, max_floor }
    }

    /// The cheap pre-check a call site makes before rendering an expensive
    /// message: whether a record of this severity could reach any sink.
    pub fn enabled(&self, level: Level, _target: &str) -> (r: bool)
        requires
            self.wf(),
        ensures
            r == node_enabled(self.model(), level),
    {
        proof {
            lemma_floor_is_gate(self.model());
        }
        level.rank() >= self.max_floor
    }

    /// Routes one record: the fast path runs first, and only records that
    /// could reach a sink are handed to the tree.  Skipping an unreachable
    /// record changes nothing, so the tree always ends up exactly as if the
    /// record had been handed to it.
    pub fn log(&mut self, record: &Record)
        requires
            old(self).wf(),
        ensures
            final(self).wf(),
            final(self).model() == node_handle(old(self).model(), record.level, record.message@),
    {
        proof {
            lemma_floor_is_gate(old(self).model());
        }
        if record.level.rank() >= self.max_floor {
            self.root.handle(record);
            proof {
                lemma_handle_keeps_floor(old(self).model(), record.level, record.message@);
            }
        } else {
            proof {
                lemma_gate_skip(old(self).model(), record.level, record.message@);
            }
        }
    }

    /// Propagates a flush signal through the whole tree; it returns only once
    /// every reachable sink has taken the signal.
    pub fn flush(&mut self)
        requires
            old(self).wf(),
        ensures
            final(self).wf(),
            final(self).model() == node_flush(old(self).model()),
    {
        self.root.flush();
        proof {
            lemma_flush_keeps_floor(old(self).model());
        }
    }

    /// Read access to the sealed tree, for inspecting sink contents.
    pub fn root(&self) -> (r: &Dispatch)
        ensures
            r.model() == self.model(),
    {
        &self.root
    }

    /// Tears the logger apart and hands the tree back, for draining sinks.
    pub fn into_root(self) -> (r: Dispatch)
        ensures
            r.model() == self.model(),
    {
        self.root
    }
}

/// The process-wide facade state: uninitialized until a tree is installed,
/// then active, with that tree, for the rest of its life.  There is no
/// uninstall operation.
pub struct GlobalLogger {
    installed: Option<Logger>,
}

impl GlobalLogger {
    /// Ghost mirror of the installed tree, if one is installed.
    pub closed spec fn installed_model(&self) -> Option<NodeModel> {
        match self.installed {
            Some(l) => Some(l.model()),
            None => None,
        }
    }

    /// The installed logger's gate, if any, agrees with its tree.
    pub closed spec fn wf(&self) -> bool {
        match self.installed {
            Some(l) => l.wf(),
            None => true,
        }
    }

    /// The uninitialized facade: nothing is installed, every call is dropped.
    pub fn new() -> (r: GlobalLogger)
        ensures
            r.wf(),
            r.installed_model() is None,
    {
        GlobalLogger { installed: None }
    }

    /// One-shot installation.  The first call seals the tree in and succeeds;
    /// every later call fails with [`AlreadyInstalledError`] and leaves the
    /// first-installed tree untouched and serving.
    pub fn install(&mut self, root: Dispatch) -> (r: Result<(), AlreadyInstalledError>)
        requires
            old(self).wf(),
        ensures
            final(self).wf(),
            old(self).installed_model() is None ==> {
                &&& r is Ok
                &&& final(self).installed_model() == Some(root.model())
            },
            old(self).installed_model() is Some ==> {
                &&& r == Err::<(), AlreadyInstalledError>(AlreadyInstalledError)
                &&& *final(self) == *old(self)
            },
    {
        if self.installed.is_some() {
            Err(AlreadyInstalledError)
        } else {
            self.installed = Some(Logger::seal(root));
            Ok(())
        }
    }

    /// The cheap pre-check: false while nothing is installed.
    pub fn enabled(&self, level: Level, target: &str) -> (r: bool)
        requires
            self.wf(),
        ensures
            r == match self.installed_model() {
                Some(m) => node_enabled(m, level),
                None => false,
            },
    {
        match &self.installed {
            Some(l) => l.enabled(level, target),
            None => false,
        }
    }

    /// Routes one record through the installed tree; dropped silently while
    /// nothing is installed.
    pub fn log(&mut self, record: &Record)
        requires
            old(self).wf(),
        ensures
            final(self).wf(),
            match old(self).installed_model() {
                Some(m) => final(self).installed_model() == Some(
                    node_handle(m, record.level, record.message@),
                ),
                None => *final(self) == *old(self),
            },
    {
        let taken = self.installed.take();
        match taken {
            Some(mut l) => {
                l.log(record);
                self.installed = Some(l);
            },
            None => {},
        }
    }

    /// Flushes the installed tree; a no-op while nothing is installed.  Safe
    /// to call repeatedly.
    pub fn flush(&mut self)
        requires
            old(self).wf(),
        ensures
            final(self).wf(),
            match old(self).installed_model() {
                Some(m) => final(self).installed_model() == Some(node_flush(m)),
                None => *final(self) == *old(self),
            },
    {
        let taken = self.installed.take();
        match taken {
            Some(mut l) => {
                l.flush();
                self.installed = Some(l);
            },
            None => {},
        }
    }

    /// Read access to the installed logger, for inspecting sink contents.
    pub fn installed_logger(&self) -> (r: Option<&Logger>)
        requires
            self.wf(),
        ensures
            match r {
                Some(l) => {
                    &&& self.installed_model() == Some(l.model())
                    &&& l.wf()
                },
                None => self.installed_model() is None,
            },
    {
        match &self.installed {
            Some(l) => Some(l),
            None => None,
        }
    }
}

} // verus!
