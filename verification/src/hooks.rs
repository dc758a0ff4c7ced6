//! A verification hook: a custom logging capability that checks the exact
//! lines a dispatch tree hands out, one per severity, each at most once.

use vstd::prelude::*;

use crate::level::Level;

verus! {

broadcast use vstd::seq::group_seq_axioms;

/// Whether `s` begins with `p`.
pub open spec fn starts_with(s: Seq<char>, p: Seq<char>) -> bool {
    p.len() <= s.len() && s.subrange(0, p.len() as int) == p
}

/// Decides whether `text` begins with `prefix`, character for character.
pub fn has_prefix(text: &str, prefix: &str) -> (r: bool)
    ensures
        r == starts_with(text@, prefix@),
{
    let n = prefix.unicode_len();
    if text.unicode_len() < n {
        return false;
    }
    let head = text.substring_char(0, n);
    let h = head.to_owned();
    let p = prefix.to_owned();
    let r = h == p;
    proof {
        if text@.subrange(0, prefix@.len() as int) =~= prefix@ {
            assert(h@ == p@);
        }
    }
    r
}

/// No line carries two of the three expected severity prefixes: they differ
/// in their second character.
pub proof fn lemma_hook_prefixes_exclusive(t: Seq<char>)
    ensures
        !(starts_with(t, "[INFO] "@) && starts_with(t, "[WARN] "@)),
        !(starts_with(t, "[INFO] "@) && starts_with(t, "[ERROR] "@)),
        !(starts_with(t, "[WARN] "@) && starts_with(t, "[ERROR] "@)),
{
    reveal_strlit("[INFO] ");
    reveal_strlit("[WARN] ");
    reveal_strlit("[ERROR] ");
    if starts_with(t, "[INFO] "@) {
        assert(t.subrange(0, 7)[1] == t[1]);
        assert(t[1] == 'I');
    }
    if starts_with(t, "[WARN] "@) {
        assert(t.subrange(0, 7)[1] == t[1]);
        assert(t[1] == 'W');
    }
    if starts_with(t, "[ERROR] "@) {
        assert(t.subrange(0, 8)[1] == t[1]);
        assert(t[1] == 'E');
    }
}

/// Custom logger built to check one exact scenario: through a tree whose
/// formatter prepends `"[LEVEL] "` above an `Info` floor, each of the info,
/// warn and error lines arrives exactly once.
pub struct LogVerify {
    pub info: bool,
    pub warn: bool,
    pub error: bool,
}

impl LogVerify {
    /// A hook that has seen no line yet.
    pub fn new() -> (r: LogVerify)
        ensures
            !r.info,
            !r.warn,
            !r.error,
    {
        LogVerify { info: false, warn: false, error: false }
    }

    /// Checks one formatted line.  The caller owes a line that carries one of
    /// the three expected prefixes and has not been seen before; the matching
    /// flag is set and the others are left alone.
    pub fn log(&mut self, text: &str)
        requires
            starts_with(text@, "[INFO] "@) || starts_with(text@, "[WARN] "@) || starts_with(
                text@,
                "[ERROR] "@,
            ),
            starts_with(text@, "[INFO] "@) ==> !old(self).info,
            starts_with(text@, "[WARN] "@) ==> !old(self).warn,
            starts_with(text@, "[ERROR] "@) ==> !old(self).error,
        ensures
            final(self).info == (old(self).info || starts_with(text@, "[INFO] "@)),
            final(self).warn == (old(self).warn || starts_with(text@, "[WARN] "@)),
            final(self).error == (old(self).error || starts_with(text@, "[ERROR] "@)),
    {
        proof {
            lemma_hook_prefixes_exclusive(text@);
        }
        if has_prefix(text, "[INFO] ") {
            self.info = true;
        } else if has_prefix(text, "[WARN] ") {
            self.warn = true;
        } else {
            self.error = true;
        }
    }
}

/// Wrapper around the verification hook which acts as the actual logging
/// capability.  It owns its hook outright, so a clone starts from a copy of
/// the recorded state.
pub struct LogVerifyWrapper {
    pub inner: LogVerify,
}

impl LogVerifyWrapper {
    /// A wrapper around a fresh hook.
    pub fn new() -> (r: LogVerifyWrapper)
        ensures
            !r.inner.info,
            !r.inner.warn,
            !r.inner.error,
    {
        LogVerifyWrapper { inner: LogVerify::new() }
    }

    /// A boxed copy of this logger, with the recorded state as it stands.
    pub fn cloned_boxed_logger(&self) -> (r: Box<LogVerifyWrapper>)
        ensures
            r.inner == self.inner,
    {
        Box::new(
            LogVerifyWrapper {
                inner: LogVerify {
                    info: self.inner.info,
                    warn: self.inner.warn,
                    error: self.inner.error,
                },
            },
        )
    }

    /// This logger wants every record, whatever its severity or target.
    pub fn enabled(&self, _level: Level, _target: &str) -> (r: bool)
        ensures
            r,
    {
        true
    }

    /// Hands one formatted line to the hook.
    pub fn log(&mut self, text: &str)
        requires
            starts_with(text@, "[INFO] "@) || starts_with(text@, "[WARN] "@) || starts_with(
                text@,
                "[ERROR] "@,
            ),
            starts_with(text@, "[INFO] "@) ==> !old(self).inner.info,
            starts_with(text@, "[WARN] "@) ==> !old(self).inner.warn,
            starts_with(text@, "[ERROR] "@) ==> !old(self).inner.error,
        ensures
            final(self).inner.info == (old(self).inner.info || starts_with(text@, "[INFO] "@)),
            final(self).inner.warn == (old(self).inner.warn || starts_with(text@, "[WARN] "@)),
            final(self).inner.error == (old(self).inner.error || starts_with(text@, "[ERROR] "@)),
    {
        self.inner.log(text);
    }

    /// The hook buffers nothing, so a flush notification has nothing to do.
    pub fn flush(&self) {
    }
}

} // verus!
