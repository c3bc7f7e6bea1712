//! Cancellation requests shared by a running scan and a running full check.

use vstd::prelude::*;

verus! {

/// The two cancellation flags: one for a single scan, one for a full check.
#[derive(Debug, Clone, Copy)]
pub struct CancelFlags {
    pub scan_cancel: bool,
    pub full_audit_cancel: bool,
}

/// The flags after a scan's cancel was requested: the full check it belongs
/// to stops too.
pub open spec fn scan_cancel_requested(f: CancelFlags) -> CancelFlags {
    CancelFlags { scan_cancel: true, full_audit_cancel: true }
}

/// The flags after a full check's cancel was requested: the scan it runs
/// stops too.
pub open spec fn full_audit_cancel_requested(f: CancelFlags) -> CancelFlags {
    CancelFlags { scan_cancel: true, full_audit_cancel: true }
}

/// The flags after the scan's own request was cleared.
pub open spec fn scan_cancel_reset(f: CancelFlags) -> CancelFlags {
    CancelFlags { scan_cancel: false, ..f }
}

/// The flags after the full check's request was cleared.
pub open spec fn full_audit_cancel_reset(f: CancelFlags) -> CancelFlags {
    CancelFlags { full_audit_cancel: false, ..f }
}

/// Whether a running scan must stop.
pub open spec fn scan_stops(f: CancelFlags) -> bool {
    f.scan_cancel || f.full_audit_cancel
}

impl CancelFlags {
    pub fn new() -> (r: Self)
        ensures
            !r.scan_cancel && !r.full_audit_cancel,
    {
        CancelFlags { scan_cancel: false, full_audit_cancel: false }
    }

    /// Stopping a scan also stops the full check it belongs to.
    pub fn request_scan_cancel(&mut self)
        ensures
            *final(self) == scan_cancel_requested(*old(self)),
    {
        self.scan_cancel = true;
        self.full_audit_cancel = true;
    }

    pub fn reset_scan_cancel(&mut self)
        ensures
            *final(self) == scan_cancel_reset(*old(self)),
    {
        self.scan_cancel = false;
    }

    /// A scan stops when it, or the full check around it, was cancelled.
    pub fn is_scan_cancelled(&self) -> (r: bool)
        ensures
            r == scan_stops(*self),
    {
        self.scan_cancel || self.full_audit_cancel
    }

    /// Stopping a full check also stops the scan it is running.
    pub fn request_full_audit_cancel(&mut self)
        ensures
            *final(self) == full_audit_cancel_requested(*old(self)),
    {
        self.full_audit_cancel = true;
        self.scan_cancel = true;
    }

    pub fn reset_full_audit_cancel(&mut self)
        ensures
            *final(self) == full_audit_cancel_reset(*old(self)),
    {
        self.full_audit_cancel = false;
    }

    pub fn is_full_audit_cancelled(&self) -> (r: bool)
        ensures
            r == self.full_audit_cancel,
    {
        self.full_audit_cancel
    }
}

/// Any cancel request, for a scan or for a full check, stops the running scan
/// and the full check; a full check's cancellation survives clearing the
/// scan's own flag (as each new scan of the check does); and clearing both
/// flags lets work run again.
pub proof fn law_cancel_reaches_scan(f: CancelFlags)
    ensures
        scan_stops(scan_cancel_requested(f)) && scan_cancel_requested(f).full_audit_cancel,
        scan_stops(full_audit_cancel_requested(f)) && full_audit_cancel_requested(f).full_audit_cancel,
        scan_stops(scan_cancel_reset(full_audit_cancel_requested(f))),
        !scan_stops(scan_cancel_reset(full_audit_cancel_reset(f))),
{
}

} // verus!
