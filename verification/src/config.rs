//! The runtime-config channel: a single-slot, multi-reader distribution
//! point for the current RuntimeConfig snapshot. A sender replaces the value
//! as a whole; readers take a copy of the latest snapshot at each decision
//! point, so a live change takes effect at the next decision without
//! touching work already issued. What a concurrent read returns depends on
//! the interleaving of senders, so the operations promise nothing beyond
//! their types; the scheduler is verified for every snapshot value it is
//! handed.

use vstd::prelude::*;

use crate::orchestrator::RuntimeConfig;

verus! {

#[verifier::external_body]
struct ConfigSlot {
    data: parking_lot::Mutex<RuntimeConfig>,
    condvar: async_condvar_fair::Condvar,
}

/// The writing half of the channel, held by the control plane.
#[verifier::external_body]
pub struct ConfigSender {
    inner: std::sync::Arc<ConfigSlot>,
}

/// The reading half of the channel, passed into every task's context.
#[verifier::external_body]
pub struct ConfigReciever {
    inner: std::sync::Arc<ConfigSlot>,
}

impl ConfigSender {
    /// Relies on std::sync::Arc::clone: another writing handle to the same
    /// shared slot.
    #[verifier::external_body]
    pub fn duplicate(&self) -> ConfigSender {
        ConfigSender { inner: self.inner.clone() }
    }

    /// Relies on parking_lot::Mutex::lock and
    /// async_condvar_fair::Condvar::notify_all: replaces the shared snapshot
    /// with `value` as one whole — a reader sees the fully-old or the
    /// fully-new snapshot, never a mix — and wakes every waiting subscriber.
    #[verifier::external_body]
    pub fn send(&mut self, value: RuntimeConfig) {
        let mut v = self.inner.data.lock();
        *v = value;
        self.inner.condvar.notify_all();
    }
}

impl ConfigReciever {
    /// Relies on parking_lot::Mutex::lock: returns a copy of the snapshot
    /// most recently sent; which snapshot that is depends on concurrent
    /// senders, so nothing more can be promised of the value.
    #[verifier::external_body]
    pub fn get_current(&self) -> RuntimeConfig {
        self.inner.data.lock().clone()
    }
}

/// Relies on parking_lot::Mutex::new, async_condvar_fair::Condvar::default
/// and std::sync::Arc::new: builds the shared single-slot channel holding
/// `initial` and returns its writing and reading halves.
#[verifier::external_body]
pub fn create_config(initial: RuntimeConfig) -> (ConfigSender, ConfigReciever) {
    let inner = std::sync::Arc::new(ConfigSlot {
        data: parking_lot::Mutex::new(initial),
        condvar: async_condvar_fair::Condvar::default(),
    });
    (ConfigSender { inner: inner.clone() }, ConfigReciever { inner })
}

} // verus!
