//! Counters of the storage calls made while a query runs.
use vstd::prelude::*;
use std::sync::Arc;
use std::sync::atomic::AtomicU64;
use std::sync::atomic::Ordering;

verus! {

/// Shared counters of storage calls. Clones share the same counters, so the storage
/// and the row streams it hands out count into one place.
#[derive(Clone, Debug)]
pub struct TraceMetrics(Arc<Counters>);

#[derive(Debug)]
struct Counters {
    fetch_data: AtomicU64,
    scan_data: AtomicU64,
    scan_indexed_data: AtomicU64,
    rows_consumed: AtomicU64,
    append_data: AtomicU64,
    insert_data: AtomicU64,
    delete_data: AtomicU64,
}

/// The counts of storage calls at one moment.
#[derive(Clone, Copy, Debug, PartialEq, Eq)]
pub struct MetricsSnapshot {
    pub fetch_data_calls: u64,
    pub scan_data_calls: u64,
    pub scan_indexed_data_calls: u64,
    pub rows_consumed: u64,
    pub append_data_calls: u64,
    pub insert_data_calls: u64,
    pub delete_data_calls: u64,
}

impl MetricsSnapshot {
    /// Whether every count is zero.
    pub open spec fn is_zero(self) -> bool {
        &&& self.fetch_data_calls == 0
        &&& self.scan_data_calls == 0
        &&& self.scan_indexed_data_calls == 0
        &&& self.rows_consumed == 0
        &&& self.append_data_calls == 0
        &&& self.insert_data_calls == 0
        &&& self.delete_data_calls == 0
    }
}

impl Default for MetricsSnapshot {
    fn default() -> (s: Self)
        ensures
            s.is_zero(),
    {
        MetricsSnapshot {
            fetch_data_calls: 0,
            scan_data_calls: 0,
            scan_indexed_data_calls: 0,
            rows_consumed: 0,
            append_data_calls: 0,
            insert_data_calls: 0,
            delete_data_calls: 0,
        }
    }
}

impl TraceMetrics {
    /// New counters, all zero.
    pub fn new() -> (m: Self) {
        TraceMetrics(
            Arc::new(
                Counters {
                    fetch_data: AtomicU64::new(0),
                    scan_data: AtomicU64::new(0),
                    scan_indexed_data: AtomicU64::new(0),
                    rows_consumed: AtomicU64::new(0),
                    append_data: AtomicU64::new(0),
                    insert_data: AtomicU64::new(0),
                    delete_data: AtomicU64::new(0),
                },
            ),
        )
    }

    /// Sets every counter back to zero.
    pub fn reset(&self) {
        let c = &*self.0;
        c.fetch_data.store(0, Ordering::Relaxed);
        c.scan_data.store(0, Ordering::Relaxed);
        c.scan_indexed_data.store(0, Ordering::Relaxed);
        c.rows_consumed.store(0, Ordering::Relaxed);
        c.append_data.store(0, Ordering::Relaxed);
        c.insert_data.store(0, Ordering::Relaxed);
        c.delete_data.store(0, Ordering::Relaxed);
    }

    /// The current counts.
    pub fn snapshot(&self) -> (s: MetricsSnapshot) {
        let c = &*self.0;
        MetricsSnapshot {
            fetch_data_calls: c.fetch_data.load(Ordering::Relaxed),
            scan_data_calls: c.scan_data.load(Ordering::Relaxed),
            scan_indexed_data_calls: c.scan_indexed_data.load(Ordering::Relaxed),
            rows_consumed: c.rows_consumed.load(Ordering::Relaxed),
            append_data_calls: c.append_data.load(Ordering::Relaxed),
            insert_data_calls: c.insert_data.load(Ordering::Relaxed),
            delete_data_calls: c.delete_data.load(Ordering::Relaxed),
        }
    }

    /// Counts a `fetch_data` call.
    pub fn record_fetch_data(&self) {
        self.0.fetch_data.fetch_add(1, Ordering::Relaxed);
    }

    /// Counts a `scan_data` call.
    pub fn record_scan_data(&self) {
        self.0.scan_data.fetch_add(1, Ordering::Relaxed);
    }

    /// Counts a `scan_indexed_data` call.
    pub fn record_scan_indexed_data(&self) {
        self.0.scan_indexed_data.fetch_add(1, Ordering::Relaxed);
    }

    /// Counts a row handed out by the storage.
    pub fn record_row(&self) {
        self.0.rows_consumed.fetch_add(1, Ordering::Relaxed);
    }

    /// Counts an `append_data` call.
    pub fn record_append_data(&self) {
        self.0.append_data.fetch_add(1, Ordering::Relaxed);
    }

    /// Counts an `insert_data` call.
    pub fn record_insert_data(&self) {
        self.0.insert_data.fetch_add(1, Ordering::Relaxed);
    }

    /// Counts a `delete_data` call.
    pub fn record_delete_data(&self) {
        self.0.delete_data.fetch_add(1, Ordering::Relaxed);
    }
}

impl Default for TraceMetrics {
    fn default() -> (m: Self) {
        TraceMetrics::new()
    }
}

/// A storage wrapped with counters of the calls made to it. The program's edge makes it
/// a GlueSQL storage that counts each call into `metrics` and hands the call on.
#[derive(Debug)]
pub struct TracingStorage<S> {
    inner: S,
    metrics: TraceMetrics,
}

impl<S> TracingStorage<S> {
    /// The wrapped storage.
    pub closed spec fn inner_spec(&self) -> S {
        self.inner
    }

    /// Wraps a storage with new counters, all zero.
    pub fn new(inner: S) -> (r: Self)
        ensures
            r.inner_spec() == inner,
    {
        TracingStorage { inner, metrics: TraceMetrics::new() }
    }

    /// The wrapped storage.
    pub fn inner(&self) -> (r: &S)
        ensures
            *r == self.inner_spec(),
    {
        &self.inner
    }

    /// The wrapped storage, to adjust its settings.
    pub fn inner_mut(&mut self) -> (r: &mut S)
        ensures
            *r == old(self).inner_spec(),
            final(self).inner_spec() == *final(r),
    {
        &mut self.inner
    }

    /// The counters.
    pub closed spec fn metrics_spec(&self) -> TraceMetrics {
        self.metrics
    }

    /// The counters.
    pub fn metrics(&self) -> (r: &TraceMetrics)
        ensures
            *r == self.metrics_spec(),
    {
        &self.metrics
    }
}

impl<S> MetricSource for TracingStorage<S> {
    fn reset_metrics(&self) {
        self.metrics.reset();
    }

    fn snapshot_metrics(&self) -> MetricsSnapshot {
        self.metrics.snapshot()
    }
}

/// A storage that counts the calls made to it.
pub trait MetricSource {
    /// Sets the counts back to zero.
    fn reset_metrics(&self);

    /// The current counts.
    fn snapshot_metrics(&self) -> MetricsSnapshot;
}

} // verus!
