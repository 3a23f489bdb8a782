//! The failures that the store reports.

use vstd::prelude::*;

verus! {

/// What can go wrong. Every failure is handed to the caller as a value.
#[derive(Clone, Copy, Debug, PartialEq, Eq, Structural)]
pub enum KVError {
    /// The platform could not report which cores may be used.
    Unavailable,
    /// The channel to the destination holds as many requests as it can.
    ChannelFull,
    /// The destination is the sender itself, or no shard has that number.
    NoSuchPeer,
    /// No core was found and no lower bound on the shard count was given.
    NoCoresDetected,
    /// A worker ended abnormally.
    WorkerFailure,
}

impl KVError {
    /// Whether the same call may succeed when it is made again later.
    pub open spec fn retryable(self) -> bool {
        self == KVError::ChannelFull
    }

    /// The failure in words.
    pub fn message(&self) -> (text: &'static str)
        ensures
            text@ == match self {
                KVError::Unavailable => "core enumeration is unavailable"@,
                KVError::ChannelFull => "channel is full"@,
                KVError::NoSuchPeer => "no such peer"@,
                KVError::NoCoresDetected => "no cores detected"@,
                KVError::WorkerFailure => "a worker failed"@,
            },
    {
        match self {
            KVError::Unavailable => "core enumeration is unavailable",
            KVError::ChannelFull => "channel is full",
            KVError::NoSuchPeer => "no such peer",
            KVError::NoCoresDetected => "no cores detected",
            KVError::WorkerFailure => "a worker failed",
        }
    }

    /// Computes [`Self::retryable`].
    pub fn is_retryable(&self) -> (r: bool)
        ensures
            r == self.retryable(),
    {
        match self {
            KVError::ChannelFull => true,
            _ => false,
        }
    }
}

} // verus!
