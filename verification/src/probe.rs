//! One player's metadata probe: at most one worker at a time, restarted per source.

use std::sync::Arc;
use std::sync::atomic::AtomicBool;
use std::sync::atomic::Ordering;

use vstd::prelude::*;

use crate::text::{chars_of, matches_at, matches_at_exec};

verus! {

/// A source the probe can ask: an `http://` or `https://` URL.
pub open spec fn is_http(url: Seq<char>) -> bool {
    matches_at(url, "http://"@, 0) || matches_at(url, "https://"@, 0)
}

/// Whether `url` is a source the probe can ask (see [`is_http`]).
pub fn is_http_exec(url: &str) -> (r: bool)
    ensures
        r == is_http(url@),
{
    let chars = chars_of(url);
    matches_at_exec(&chars, &chars_of("http://"), 0) || matches_at_exec(
        &chars,
        &chars_of("https://"),
        0,
    )
}

/// One player's probe: its id, by which a worker's finding is routed back to the player's
/// signal, and the cancel flag of the worker it runs, if any.
pub struct Probe {
    id: u64,
    cancel: Option<Arc<AtomicBool>>,
}

impl Probe {
    /// The id a worker's finding is routed back by.
    pub closed spec fn spec_id(&self) -> u64 {
        self.id
    }

    /// Whether a worker of this probe may still be running (its cancel flag is held).
    pub closed spec fn running(&self) -> bool {
        self.cancel is Some
    }

    /// A probe with id `id` and no worker.
    pub fn new(id: u64) -> (r: Probe)
        ensures
            r.spec_id() == id,
            !r.running(),
    {
        Probe { id, cancel: None }
    }

    /// The id a worker's finding is routed back by.
    pub fn id(&self) -> (r: u64)
        ensures
            r == self.spec_id(),
    {
        self.id
    }

    /// Probe `url` from now on, replacing any earlier source: the running worker, if any, is
    /// cancelled first. A source that is not `http(s)` gets no worker. Otherwise the result is
    /// the cancel flag of the worker to start, which this probe holds until it is stopped.
    pub fn start(&mut self, url: &str) -> (r: Option<Arc<AtomicBool>>)
        ensures
            final(self).spec_id() == old(self).spec_id(),
            r is Some == is_http(url@),
            final(self).running() == r is Some,
    {
        self.stop();
        if !is_http_exec(url) {
            return None;
        }
        let cancel = Arc::new(AtomicBool::new(false));
        self.cancel = Some(cancel.clone());
        Some(cancel)
    }

    /// Cancel the running worker, if any: raise its flag and let it go.
    pub fn stop(&mut self)
        ensures
            final(self).spec_id() == old(self).spec_id(),
            !final(self).running(),
    {
        if let Some(c) = self.cancel.take() {
            c.store(true, Ordering::Relaxed);
        }
    }
}

} // verus!
