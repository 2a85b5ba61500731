//! The audit/telemetry log: structured events with sensitive-key
//! redaction, bounded retention, and plain counters.

use vstd::prelude::*;

use vstd::string::StringExecFns;

use crate::wire::str_eq;

verus! {

/// Errors of the audit log's export path.
#[derive(Debug, Clone, PartialEq, Eq)]
pub enum AuditError {
    Io(String),
}

impl AuditError {
    /// Human-readable description of the error.
    pub fn message(&self) -> String {
        match self {
            AuditError::Io(m) => String::from_str("io error: ").concat(m.as_str()),
        }
    }
}

/// One structured audit event; metadata is a list of key/value pairs.
#[derive(Debug, Clone, PartialEq, Eq)]
pub struct AuditEvent {
    pub timestamp_ms: u64,
    pub category: String,
    pub action: String,
    pub metadata: Vec<(String, String)>,
}

impl AuditEvent {
    /// The value stored under a metadata key, if any.
    pub fn metadata_value(&self, key: &str) -> (r: Option<&String>)
        ensures
            match r {
                Some(v) => exists|i: int|
                    0 <= i < self.metadata@.len() && (#[trigger] self.metadata@[i]).0@ == key@
                        && self.metadata@[i].1@ == v@,
                None => forall|i: int|
                    0 <= i < self.metadata@.len() ==> (#[trigger] self.metadata@[i]).0@ != key@,
            },
    {
        let mut i: usize = 0;
        while i < self.metadata.len()
            invariant
                i <= self.metadata@.len(),
                forall|j: int| 0 <= j < i ==> (#[trigger] self.metadata@[j]).0@ != key@,
            decreases self.metadata@.len() - i,
        {
            if str_eq(self.metadata[i].0.as_str(), key) {
                return Some(&self.metadata[i].1);
            }
            i = i + 1;
        }
        None
    }
}

/// How many events the log retains.
#[derive(Debug, Clone, Copy, PartialEq, Eq, Structural)]
pub struct RetentionPolicy {
    pub max_events: usize,
}

impl Default for RetentionPolicy {
    /// The default retention: the latest 1000 events.
    fn default() -> (r: Self)
        ensures
            r.max_events == 1000,
    {
        Self { max_events: 1000 }
    }
}

/// Whether a metadata key names content that must not be logged.
pub open spec fn spec_is_sensitive(key: Seq<char>) -> bool {
    ||| key == "file_name"@
    ||| key == "file_path"@
    ||| key == "receiver_name"@
    ||| key == "sender_name"@
    ||| key == "payload"@
}

/// A metadata list after redaction: keys kept, each sensitive key's
/// value replaced by `[REDACTED]`.
pub open spec fn spec_redacted(pairs: Seq<(String, String)>, redacted: Seq<(String, String)>) -> bool {
    &&& redacted.len() == pairs.len()
    &&& forall|i: int|
        0 <= i < pairs.len() ==> {
            &&& (#[trigger] redacted[i]).0@ == (#[trigger] pairs[i]).0@
            &&& redacted[i].1@ == (if spec_is_sensitive(pairs[i].0@) {
                "[REDACTED]"@
            } else {
                pairs[i].1@
            })
        }
}

/// Tests whether a key is in the redaction set.
fn is_sensitive_key(key: &str) -> (r: bool)
    ensures
        r == spec_is_sensitive(key@),
{
    str_eq(key, "file_name") || str_eq(key, "file_path") || str_eq(key, "receiver_name") || str_eq(
        key,
        "sender_name",
    ) || str_eq(key, "payload")
}

/// Replaces the value of every sensitive key by `[REDACTED]`, keeping
/// keys and order.
pub fn redact_sensitive_metadata(metadata: &mut Vec<(String, String)>)
    ensures
        spec_redacted(old(metadata)@, final(metadata)@),
{
    let mut i: usize = 0;
    while i < metadata.len()
        invariant
            i <= metadata@.len(),
            metadata@.len() == old(metadata)@.len(),
            forall|j: int| i <= j < metadata@.len() ==> metadata@[j] == old(metadata)@[j],
            forall|j: int|
                0 <= j < i ==> {
                    &&& (#[trigger] metadata@[j]).0@ == (#[trigger] old(metadata)@[j]).0@
                    &&& metadata@[j].1@ == (if spec_is_sensitive(old(metadata)@[j].0@) {
                        "[REDACTED]"@
                    } else {
                        old(metadata)@[j].1@
                    })
                },
        decreases metadata@.len() - i,
    {
        if is_sensitive_key(metadata[i].0.as_str()) {
            let key = metadata[i].0.clone();
            metadata[i] = (key, String::from_str("[REDACTED]"));
        }
        i = i + 1;
    }
}

/// The audit log: retained events and counters under one policy.
#[derive(Debug, Clone)]
pub struct AuditTelemetry {
    events: Vec<AuditEvent>,
    counters: Vec<(String, u64)>,
    retention: RetentionPolicy,
}

impl AuditTelemetry {
    /// The retained events, oldest first.
    pub closed spec fn spec_events(self) -> Seq<AuditEvent> {
        self.events@
    }

    /// The retention policy.
    pub closed spec fn spec_retention(self) -> RetentionPolicy {
        self.retention
    }

    /// The counters as a list of name/value pairs.
    pub closed spec fn spec_counters(self) -> Seq<(String, u64)> {
        self.counters@
    }

    /// The value of a counter: zero when it was never incremented.
    pub closed spec fn spec_counter_value(self, metric: Seq<char>) -> u64 {
        spec_counters_value(self.counters@, metric)
    }

    /// The counter invariant: each metric appears at most once.
    pub closed spec fn wf(self) -> bool {
        forall|i: int, j: int|
            0 <= i < j < self.counters@.len() ==> (#[trigger] self.counters@[i]).0@ != (
            #[trigger] self.counters@[j]).0@
    }

    /// An empty log under the given retention policy.
    pub fn new(retention: RetentionPolicy) -> (r: Self)
        ensures
            r.wf(),
            r.spec_events().len() == 0,
            r.spec_retention() == retention,
            forall|m: Seq<char>| r.spec_counter_value(m) == 0,
    {
        Self { events: Vec::new(), counters: Vec::new(), retention }
    }

    /// Records an event: its metadata is redacted, it is appended, and
    /// the oldest events beyond the retention bound are dropped.
    pub fn record_event(&mut self, event: AuditEvent)
        requires
            old(self).wf(),
        ensures
            final(self).wf(),
            final(self).spec_retention() == old(self).spec_retention(),
            final(self).spec_counters() == old(self).spec_counters(),
            exists|stored: AuditEvent|
                {
                    let all = old(self).spec_events().push(stored);
                    let excess: int = if all.len() > old(self).spec_retention().max_events {
                        all.len() - old(self).spec_retention().max_events
                    } else {
                        0
                    };
                    &&& #[trigger] stored.timestamp_ms == event.timestamp_ms
                    &&& stored.category@ == event.category@
                    &&& stored.action@ == event.action@
                    &&& spec_redacted(event.metadata@, stored.metadata@)
                    &&& final(self).spec_events() == all.skip(excess)
                },
    {
        let mut event = event;
        redact_sensitive_metadata(&mut event.metadata);
        let ghost stored = event;
        self.events.push(event);
        let max = self.retention.max_events;
        let ghost all = self.events@;
        if self.events.len() > max {
            let drop_n = self.events.len() - max;
            let mut k: usize = 0;
            while k < drop_n
                invariant
                    k <= drop_n,
                    drop_n <= all.len(),
                    self.events@ == all.skip(k as int),
                    self.counters@ == old(self).counters@,
                    self.retention == old(self).retention,
                decreases drop_n - k,
            {
                self.events.remove(0);
                proof {
                    assert(self.events@ =~= all.skip(k + 1));
                }
                k = k + 1;
            }
        } else {
            proof {
                assert(self.events@ =~= all.skip(0));
            }
        }
        proof {
            let all_g = old(self).spec_events().push(stored);
            let excess: int = if all_g.len() > old(self).spec_retention().max_events {
                all_g.len() - old(self).spec_retention().max_events
            } else {
                0
            };
            assert(stored.timestamp_ms == event.timestamp_ms);
            assert(self.spec_events() == all_g.skip(excess));
        }
    }

    /// Adds one to a counter, creating it at one; a counter already at
    /// the largest `u64` saturates there.
    pub fn increment_counter(&mut self, metric: &str)
        requires
            old(self).wf(),
        ensures
            final(self).wf(),
            final(self).spec_events() == old(self).spec_events(),
            final(self).spec_retention() == old(self).spec_retention(),
            final(self).spec_counter_value(metric@) == (
                if old(self).spec_counter_value(metric@) < 0xffff_ffff_ffff_ffffu64 {
                    (old(self).spec_counter_value(metric@) + 1) as u64
                } else {
                    old(self).spec_counter_value(metric@)
                }
            ),
            forall|m: Seq<char>|
                m != metric@ ==> final(self).spec_counter_value(m) == old(self).spec_counter_value(
                    m,
                ),
    {
        let ghost pre = self.counters@;
        let mut i: usize = 0;
        while i < self.counters.len()
            invariant
                i <= self.counters@.len(),
                *self == *old(self),
                old(self).wf(),
                self.counters@ == pre,
                forall|j: int| 0 <= j < i ==> (#[trigger] pre[j]).0@ != metric@,
            decreases self.counters@.len() - i,
        {
            if str_eq(self.counters[i].0.as_str(), metric) {
                let name = self.counters[i].0.clone();
                let value = self.counters[i].1;
                let bumped: u64 = if value < 0xffff_ffff_ffff_ffff {
                    value + 1
                } else {
                    value
                };
                self.counters[i] = (name, bumped);
                proof {
                    let post = self.counters@;
                    assert(post =~= pre.update(i as int, post[i as int]));
                    lemma_counter_at(pre, i as int);
                    lemma_counter_at(post, i as int);
                    assert forall|m: Seq<char>|
                        m != metric@ implies spec_counters_value(post, m) == spec_counters_value(
                        pre,
                        m,
                    ) by {
                        lemma_counter_frame(pre, post, i as int, m);
                    }
                }
                return ;
            }
            i = i + 1;
        }
        self.counters.push((String::from_str(metric), 1));
        proof {
            let post = self.counters@;
            assert(post[post.len() - 1].0@ == metric@);
            lemma_counter_at(post, post.len() - 1);
            assert forall|m: Seq<char>|
                m != metric@ implies spec_counters_value(post, m) == spec_counters_value(
                pre,
                m,
            ) by {
                lemma_counter_push_frame(pre, post, m);
            }
        }
    }

    /// Reads a counter; an unknown metric reads zero.
    pub fn counter_value(&self, metric: &str) -> (r: u64)
        requires
            self.wf(),
        ensures
            r == self.spec_counter_value(metric@),
    {
        let mut i: usize = 0;
        while i < self.counters.len()
            invariant
                i <= self.counters@.len(),
                self.wf(),
                forall|j: int| 0 <= j < i ==> (#[trigger] self.counters@[j]).0@ != metric@,
            decreases self.counters@.len() - i,
        {
            if str_eq(self.counters[i].0.as_str(), metric) {
                proof {
                    lemma_counter_at(self.counters@, i as int);
                }
                return self.counters[i].1;
            }
            i = i + 1;
        }
        0
    }

    /// The retained events, oldest first.
    pub fn events(&self) -> (r: &Vec<AuditEvent>)
        ensures
            r@ == self.spec_events(),
    {
        &self.events
    }
}

/// Whether an entry list holds a metric.
spec fn spec_counters_has(s: Seq<(String, u64)>, metric: Seq<char>) -> bool {
    exists|i: int| 0 <= i < s.len() && (#[trigger] s[i]).0@ == metric
}

/// The index of a metric in an entry list.
spec fn spec_counter_index(s: Seq<(String, u64)>, metric: Seq<char>) -> int {
    choose|i: int| 0 <= i < s.len() && (#[trigger] s[i]).0@ == metric
}

/// The value of a counter in an entry list.
spec fn spec_counters_value(s: Seq<(String, u64)>, metric: Seq<char>) -> u64 {
    if spec_counters_has(s, metric) {
        s[spec_counter_index(s, metric)].1
    } else {
        0u64
    }
}

/// In a unique-keyed counter list, the entry at index `i` is the one its
/// metric names.
proof fn lemma_counter_at(s: Seq<(String, u64)>, i: int)
    requires
        forall|a: int, b: int| 0 <= a < b < s.len() ==> (#[trigger] s[a]).0@ != (#[trigger] s[b]).0@,
        0 <= i < s.len(),
    ensures
        spec_counters_has(s, s[i].0@),
        spec_counter_index(s, s[i].0@) == i,
        spec_counters_value(s, s[i].0@) == s[i].1,
{
    let n = s[i].0@;
    assert(spec_counters_has(s, n));
    let j = spec_counter_index(s, n);
    assert(0 <= j < s.len() && s[j].0@ == n);
    if i < j {
        assert(s[i].0@ != s[j].0@);
    } else if j < i {
        assert(s[j].0@ != s[i].0@);
    }
}

/// Updating one entry leaves every other metric's value unchanged.
proof fn lemma_counter_frame(pre: Seq<(String, u64)>, post: Seq<(String, u64)>, i: int, m: Seq<char>)
    requires
        forall|a: int, b: int|
            0 <= a < b < pre.len() ==> (#[trigger] pre[a]).0@ != (#[trigger] pre[b]).0@,
        forall|a: int, b: int|
            0 <= a < b < post.len() ==> (#[trigger] post[a]).0@ != (#[trigger] post[b]).0@,
        pre.len() == post.len(),
        0 <= i < pre.len(),
        forall|j: int| 0 <= j < pre.len() && j != i ==> pre[j] == #[trigger] post[j],
        post[i].0@ == pre[i].0@,
        m != pre[i].0@,
    ensures
        spec_counters_value(post, m) == spec_counters_value(pre, m),
{
    if spec_counters_has(pre, m) {
        let j = spec_counter_index(pre, m);
        assert(0 <= j < pre.len() && pre[j].0@ == m);
        lemma_counter_at(pre, j);
        assert(post[j].0@ == m);
        lemma_counter_at(post, j);
    } else {
        if spec_counters_has(post, m) {
            let j = spec_counter_index(post, m);
            assert(0 <= j < post.len() && post[j].0@ == m);
            assert(pre[j].0@ == m);
        }
    }
}

/// Pushing a new metric leaves every other metric's value unchanged.
proof fn lemma_counter_push_frame(pre: Seq<(String, u64)>, post: Seq<(String, u64)>, m: Seq<char>)
    requires
        forall|a: int, b: int|
            0 <= a < b < pre.len() ==> (#[trigger] pre[a]).0@ != (#[trigger] pre[b]).0@,
        forall|a: int, b: int|
            0 <= a < b < post.len() ==> (#[trigger] post[a]).0@ != (#[trigger] post[b]).0@,
        post.len() == pre.len() + 1,
        forall|j: int| 0 <= j < pre.len() ==> pre[j] == #[trigger] post[j],
        m != post[post.len() - 1].0@,
    ensures
        spec_counters_value(post, m) == spec_counters_value(pre, m),
{
    if spec_counters_has(pre, m) {
        let j = spec_counter_index(pre, m);
        assert(0 <= j < pre.len() && pre[j].0@ == m);
        lemma_counter_at(pre, j);
        assert(post[j].0@ == m);
        lemma_counter_at(post, j);
    } else {
        if spec_counters_has(post, m) {
            let j = spec_counter_index(post, m);
            assert(0 <= j < post.len() && post[j].0@ == m);
            assert(j < pre.len());
            assert(pre[j].0@ == m);
        }
    }
}

} // verus!
