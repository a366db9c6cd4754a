use vstd::prelude::*;

use std::sync::atomic::{AtomicBool, Ordering};

verus! {

/// Process-wide flags shared by every stage: whether synthesized speech is
/// playing (capture is muted meanwhile) and whether the process is shutting
/// down. Each flag is an independent atomic; no operation blocks or fails.
pub struct JarvisSignals {
    speaker_active: AtomicBool,
    shutdown: AtomicBool,
}

impl JarvisSignals {
    pub fn new() -> (r: JarvisSignals) {
        JarvisSignals { speaker_active: AtomicBool::new(false), shutdown: AtomicBool::new(false) }
    }

    pub fn is_speaker_active(&self) -> bool {
        self.speaker_active.load(Ordering::SeqCst)
    }

    pub fn set_speaker_active(&self, active: bool) {
        self.speaker_active.store(active, Ordering::SeqCst);
    }

    pub fn is_shutdown(&self) -> bool {
        self.shutdown.load(Ordering::SeqCst)
    }

    /// Asks every stage to stop. Only ever raises the flag.
    pub fn set_shutdown(&self) {
        self.shutdown.store(true, Ordering::SeqCst);
    }
}

/// The operations on the signals, as seen by the flags they write.
pub enum SignalOp {
    SetSpeakerActive(bool),
    RequestShutdown,
    Read,
}

/// The two flags.
pub struct SignalFlags {
    pub speaker_active: bool,
    pub shutting_down: bool,
}

/// The effect of one operation on the flags, as the methods above write them.
pub open spec fn apply_op(f: SignalFlags, op: SignalOp) -> SignalFlags {
    match op {
        SignalOp::SetSpeakerActive(a) => SignalFlags { speaker_active: a, ..f },
        SignalOp::RequestShutdown => SignalFlags { shutting_down: true, ..f },
        SignalOp::Read => f,
    }
}

pub open spec fn apply_ops(f: SignalFlags, ops: Seq<SignalOp>) -> SignalFlags
    decreases ops.len(),
{
    if ops.len() == 0 {
        f
    } else {
        apply_op(apply_ops(f, ops.drop_last()), ops.last())
    }
}

/// Requesting shutdown is idempotent, and once the flag is raised no sequence
/// of operations lowers it again.
pub proof fn lemma_shutdown_monotonic(f: SignalFlags, ops: Seq<SignalOp>)
    ensures
        apply_op(apply_op(f, SignalOp::RequestShutdown), SignalOp::RequestShutdown) == apply_op(
            f,
            SignalOp::RequestShutdown,
        ),
        f.shutting_down ==> apply_ops(f, ops).shutting_down,
    decreases ops.len(),
{
    if ops.len() > 0 {
        lemma_shutdown_monotonic(f, ops.drop_last());
    }
}

} // verus!
