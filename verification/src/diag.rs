//! The diagnostic sink and the process-wide error state.
//!
//! Every "print" operation of the interpreter core reduces to appends on
//! this sink. Three tiers of trouble are recorded here: recoverable
//! diagnostics raise `num_errors`, internal-consistency violations
//! ("confusion") set `fatal`, and a sink that can no longer accept output
//! (`failed`) makes every write report failure so that callers can unwind.

use crate::decimal::{dec_bytes_u64, dec_digits, int_repr};
use vstd::prelude::*;
use vstd::string::StringSliceAdditionalSpecFns;

verus! {

/// The write-only diagnostic stream together with the run-wide error flags.
pub struct Diagnostics {
    /// Every byte the sink has accepted, in order.
    pub log: Vec<u8>,
    /// The sink can accept no further output; writes report failure.
    pub failed: bool,
    /// How many recoverable diagnostics ("warnings") have been raised.
    pub num_errors: u64,
    /// An internal-consistency violation ("confusion") has been reported;
    /// the current run must be aborted.
    pub fatal: bool,
}

/// The log after appending `added` on a sink in state `d`: a failed sink
/// accepts nothing.
pub open spec fn log_after(d: Diagnostics, added: Seq<u8>) -> Seq<u8> {
    if d.failed {
        d.log@
    } else {
        d.log@ + added
    }
}

/// The text that reporting a confusion appends to the log.
pub open spec fn confusion_text() -> Seq<u8> {
    ("---this can't happen\n").spec_bytes()
}

/// Appends every byte of `b` to `log`.
fn append_bytes(log: &mut Vec<u8>, b: &[u8])
    ensures
        final(log)@ == old(log)@ + b@,
{
    let mut i: usize = 0;
    while i < b.len()
        invariant
            i <= b@.len(),
            log@ == old(log)@ + b@.subrange(0, i as int),
        decreases b@.len() - i,
    {
        log.push(b[i]);
        i = i + 1;
        assert(old(log)@ + b@.subrange(0, i - 1 as int) + seq![b@[i - 1]] =~= old(log)@
            + b@.subrange(0, i as int));
    }
    assert(b@.subrange(0, b@.len() as int) =~= b@);
}

impl Diagnostics {
    /// A fresh, working sink with no output and no errors recorded.
    pub fn new() -> (r: Diagnostics)
        ensures
            r.log@ == Seq::<u8>::empty(),
            !r.failed,
            r.num_errors == 0,
            !r.fatal,
    {
        Diagnostics { log: Vec::new(), failed: false, num_errors: 0, fatal: false }
    }

    /// A sink that accepts no output: models a diagnostic stream that has
    /// failed, so that propagation of sink failure can be exercised.
    pub fn new_failed() -> (r: Diagnostics)
        ensures
            r.log@ == Seq::<u8>::empty(),
            r.failed,
            r.num_errors == 0,
            !r.fatal,
    {
        Diagnostics { log: Vec::new(), failed: true, num_errors: 0, fatal: false }
    }

    /// Appends `s` to the log; reports false exactly when the sink has failed.
    pub fn write_str(&mut self, s: &str) -> (ok: bool)
        ensures
            final(self).log@ == log_after(*old(self), s.spec_bytes()),
            final(self).failed == old(self).failed,
            final(self).num_errors == old(self).num_errors,
            final(self).fatal == old(self).fatal,
            ok == !old(self).failed,
    {
        if self.failed {
            return false;
        }
        append_bytes(&mut self.log, s.as_bytes());
        true
    }

    /// Appends raw bytes (interned string text) to the log; reports false
    /// exactly when the sink has failed.
    pub fn write_bytes(&mut self, b: &[u8]) -> (ok: bool)
        ensures
            final(self).log@ == log_after(*old(self), b@),
            final(self).failed == old(self).failed,
            final(self).num_errors == old(self).num_errors,
            final(self).fatal == old(self).fatal,
            ok == !old(self).failed,
    {
        if self.failed {
            return false;
        }
        append_bytes(&mut self.log, b);
        true
    }

    /// Raises the process-wide error flag: one more recoverable diagnostic.
    pub fn mark_error(&mut self)
        requires
            old(self).num_errors < u64::MAX,
        ensures
            final(self).num_errors == old(self).num_errors + 1,
            final(self).log@ == old(self).log@,
            final(self).failed == old(self).failed,
            final(self).fatal == old(self).fatal,
    {
        self.num_errors = self.num_errors + 1;
    }

    /// Appends the decimal text of `v` to the log; reports false exactly
    /// when the sink has failed.
    pub fn write_i32(&mut self, v: i32) -> (ok: bool)
        ensures
            final(self).log@ == log_after(*old(self), int_repr(v as int)),
            final(self).failed == old(self).failed,
            final(self).num_errors == old(self).num_errors,
            final(self).fatal == old(self).fatal,
            ok == !old(self).failed,
    {
        let mut b: Vec<u8> = Vec::new();
        if v < 0 {
            b.push(45);
        }
        let n: u64 = if v < 0 {
            (-(v as i64)) as u64
        } else {
            v as u64
        };
        let mut d = dec_bytes_u64(n);
        b.append(&mut d);
        proof {
            assert(b@ =~= int_repr(v as int));
        }
        self.write_bytes(b.as_slice())
    }

    /// Appends the decimal text of `v` to the log; reports false exactly
    /// when the sink has failed.
    pub fn write_usize(&mut self, v: usize) -> (ok: bool)
        ensures
            final(self).log@ == log_after(*old(self), dec_digits(v as nat)),
            final(self).failed == old(self).failed,
            final(self).num_errors == old(self).num_errors,
            final(self).fatal == old(self).fatal,
            ok == !old(self).failed,
    {
        let d = dec_bytes_u64(v as u64);
        self.write_bytes(d.as_slice())
    }

    /// Reports an internal-consistency violation: appends the confusion
    /// trailer and marks the run as fatally broken. Reports false exactly
    /// when the sink has failed; the run is marked broken either way, since
    /// the violation itself was detected.
    pub fn print_confusion(&mut self) -> (ok: bool)
        ensures
            final(self).log@ == log_after(*old(self), confusion_text()),
            final(self).failed == old(self).failed,
            final(self).num_errors == old(self).num_errors,
            final(self).fatal,
            ok == !old(self).failed,
    {
        self.fatal = true;
        self.write_str("---this can't happen\n")
    }
}

} // verus!
