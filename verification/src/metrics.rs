//! Process-wide request metrics: counters for requests, errors and
//! guard failures, readiness bits, and an integer-millisecond latency
//! histogram. Counters saturate instead of wrapping; each request adds
//! exactly one to the request counter while headroom remains.

use vstd::prelude::*;
use vstd::pervasive::VecAdditionalExecFns;
use vstd::string::StringExecFns;
use crate::headers::Headers;
use crate::status::grpc_ok;
use crate::text::{dec_str, u64_to_string};

verus! {

/// Number of latency histogram buckets, the unbounded one included.
pub const BUCKET_COUNT: usize = 9;

/// Saturating increment of a 64-bit counter.
pub open spec fn sat_inc(c: u64) -> u64 {
    if c < u64::MAX {
        (c + 1) as u64
    } else {
        c
    }
}

/// Saturating 64-bit addition.
pub open spec fn sat_add(a: u64, b: u64) -> u64 {
    if a + b <= u64::MAX {
        (a + b) as u64
    } else {
        u64::MAX
    }
}

/// Saturating increment, executable.
fn sat_inc_u64(c: u64) -> (r: u64)
    ensures
        r == sat_inc(c),
{
    if c < u64::MAX {
        c + 1
    } else {
        c
    }
}

/// Saturating addition, executable.
fn sat_add_u64(a: u64, b: u64) -> (r: u64)
    ensures
        r == sat_add(a, b),
{
    if b <= u64::MAX - a {
        a + b
    } else {
        u64::MAX
    }
}

/// Upper bound, in milliseconds, of a bounded latency bucket.
pub open spec fn spec_bucket_bound(i: int) -> int {
    if i == 0 {
        1
    } else if i == 1 {
        5
    } else if i == 2 {
        10
    } else if i == 3 {
        50
    } else if i == 4 {
        100
    } else if i == 5 {
        500
    } else if i == 6 {
        1000
    } else {
        5000
    }
}

/// Bucket that a latency sample falls into: the first bucket whose
/// bound is not below the sample, or the unbounded bucket.
pub open spec fn spec_bucket_index(d: int) -> int {
    if d <= 1 {
        0
    } else if d <= 5 {
        1
    } else if d <= 10 {
        2
    } else if d <= 50 {
        3
    } else if d <= 100 {
        4
    } else if d <= 500 {
        5
    } else if d <= 1000 {
        6
    } else if d <= 5000 {
        7
    } else {
        8
    }
}

/// Upper bound of a bounded latency bucket, executable.
pub fn bucket_bound(i: usize) -> (r: u64)
    requires
        i < BUCKET_COUNT - 1,
    ensures
        r as int == spec_bucket_bound(i as int),
{
    if i == 0 {
        1
    } else if i == 1 {
        5
    } else if i == 2 {
        10
    } else if i == 3 {
        50
    } else if i == 4 {
        100
    } else if i == 5 {
        500
    } else if i == 6 {
        1000
    } else {
        5000
    }
}

/// A latency distribution over fixed integer-millisecond buckets,
/// with the saturating sum and count of all recorded samples.
pub struct Histogram {
    pub counts: Vec<u64>,
    pub sum: u64,
    pub count: u64,
}

impl Histogram {
    /// The bucket vector always holds one counter per bucket.
    pub open spec fn wf(&self) -> bool {
        self.counts@.len() == BUCKET_COUNT
    }

    /// An empty distribution.
    pub fn new() -> (r: Histogram)
        ensures
            r.wf(),
            r.counts@ == Seq::new(BUCKET_COUNT as nat, |i: int| 0u64),
            r.sum == 0,
            r.count == 0,
    {
        let mut counts: Vec<u64> = Vec::new();
        while counts.len() < BUCKET_COUNT
            invariant
                counts@.len() <= BUCKET_COUNT,
                forall|i: int| 0 <= i < counts@.len() ==> counts@[i] == 0u64,
            decreases BUCKET_COUNT - counts.len(),
        {
            counts.push(0);
        }
        proof {
            assert(counts@ =~= Seq::new(BUCKET_COUNT as nat, |i: int| 0u64));
        }
        Histogram { counts, sum: 0, count: 0 }
    }

    /// Records one sample of `d` milliseconds.
    pub fn record(&mut self, d: u64)
        requires
            old(self).wf(),
        ensures
            final(self).wf(),
            hist_recorded(*old(self), *final(self), d),
    {
        let idx: usize = if d <= 1 {
            0
        } else if d <= 5 {
            1
        } else if d <= 10 {
            2
        } else if d <= 50 {
            3
        } else if d <= 100 {
            4
        } else if d <= 500 {
            5
        } else if d <= 1000 {
            6
        } else if d <= 5000 {
            7
        } else {
            8
        };
        let c = self.counts[idx];
        self.counts.set(idx, sat_inc_u64(c));
        self.sum = sat_add_u64(self.sum, d);
        self.count = sat_inc_u64(self.count);
    }
}

/// How one recorded sample of `d` milliseconds changes a distribution:
/// the sample's bucket counter, the sum and the count each grow by the
/// sample, saturating.
pub open spec fn hist_recorded(pre: Histogram, post: Histogram, d: u64) -> bool {
    &&& post.counts@ == pre.counts@.update(
        spec_bucket_index(d as int),
        sat_inc(pre.counts@[spec_bucket_index(d as int)]),
    )
    &&& post.sum == sat_add(pre.sum, d)
    &&& post.count == sat_inc(pre.count)
}

/// Process-wide metrics.
///
/// Can add more metrics here for collection.
pub struct Metrics {
    pub name: String,
    pub ready: bool,
    pub counter: u64,
    pub error_counter: u64,
    pub latency: Histogram,
    pub csrf_error_counter: u64,
    pub validate_error_counter: u64,
    pub internal_counter: u64,
    pub internal_error_counter: u64,
    pub postgres_ready: bool,
}

/// Relies on std::time::SystemTime: the current wall-clock time in
/// milliseconds since the epoch, or zero when the clock reads before
/// it. Nothing is assumed of the returned value.
#[verifier::external_body]
fn now_millis() -> u64 {
    match std::time::SystemTime::now().duration_since(std::time::UNIX_EPOCH) {
        Ok(d) => d.as_millis() as u64,
        Err(_) => 0,
    }
}

impl Metrics {
    /// Every counter vector has its fixed shape.
    pub open spec fn wf(&self) -> bool {
        self.latency.wf()
    }

    /// A fresh metrics registry with every counter at zero.
    pub fn from_config(metrics_name: &str) -> (r: Metrics)
        ensures
            r.wf(),
            r.name@ == metrics_name@,
            r.ready == false,
            r.counter == 0,
            r.error_counter == 0,
            r.csrf_error_counter == 0,
            r.validate_error_counter == 0,
            r.internal_counter == 0,
            r.internal_error_counter == 0,
            r.postgres_ready == false,
            r.latency.counts@ == Seq::new(BUCKET_COUNT as nat, |i: int| 0u64),
            r.latency.sum == 0,
            r.latency.count == 0,
    {
        Metrics {
            name: metrics_name.to_owned(),
            ready: false,
            counter: 0,
            error_counter: 0,
            latency: Histogram::new(),
            csrf_error_counter: 0,
            validate_error_counter: 0,
            internal_counter: 0,
            internal_error_counter: 0,
            postgres_ready: false,
        }
    }

    /// Export metrics in the pull-based text exposition format,
    /// returning the format's content type and the payload. Reading
    /// shares the registry: ongoing increments are simply observed in
    /// whatever state they left it.
    pub fn export(&self) -> (r: (String, String))
        requires
            self.wf(),
        ensures
            r.0@ == "text/plain; version=0.0.4"@,
            r.1@ == export_spec(*self),
    {
        let n_ready = self.name.clone().concat("_api_ready");
        let n_counter = self.name.clone().concat("_api_counter_total");
        let n_error = self.name.clone().concat("_api_error_counter_total");
        let n_latency = self.name.clone().concat("_api_latency_milliseconds");
        let n_csrf = self.name.clone().concat("_api_csrf_error_counter_total");
        let n_validate = self.name.clone().concat("_api_validate_error_counter_total");
        let n_internal = self.name.clone().concat("_internal_counter_total");
        let n_internal_error = self.name.clone().concat("_internal_error_counter_total");
        let n_postgres = self.name.clone().concat("_postgres_ready");
        let mut body = render_gauge(n_ready.as_str(), "1 if API is ready, else 0.", self.ready);
        body = body.concat(
            render_counter(
                n_counter.as_str(),
                "Total number of API server requests made.",
                self.counter,
            ).as_str(),
        );
        body = body.concat(
            render_counter(
                n_error.as_str(),
                "Total number of API server errors.",
                self.error_counter,
            ).as_str(),
        );
        body = body.concat(
            render_hist(
                n_latency.as_str(),
                "The API server request latencies in milliseconds.",
                &self.latency,
            ).as_str(),
        );
        body = body.concat(
            render_counter(
                n_csrf.as_str(),
                "Total number of API server CSRF check errors.",
                self.csrf_error_counter,
            ).as_str(),
        );
        body = body.concat(
            render_counter(
                n_validate.as_str(),
                "Total number of API server validation check errors.",
                self.validate_error_counter,
            ).as_str(),
        );
        body = body.concat(
            render_counter(
                n_internal.as_str(),
                "Total number of internal HTTP server requests made.",
                self.internal_counter,
            ).as_str(),
        );
        body = body.concat(
            render_counter(
                n_internal_error.as_str(),
                "Total number of internal HTTP server errors.",
                self.internal_error_counter,
            ).as_str(),
        );
        body = body.concat(
            render_gauge(
                n_postgres.as_str(),
                "1 if postgres is ready, else 0.",
                self.postgres_ready,
            ).as_str(),
        );
        proof {
            assert(body@ =~= export_spec(*self));
        }
        ("text/plain; version=0.0.4".to_owned(), body)
    }

    /// Records whether the API is ready.
    pub fn api_ready(&mut self, ready: bool)
        ensures
            *final(self) == (Metrics { ready, ..*old(self) }),
    {
        self.ready = ready;
    }

    /// Counts one API request.
    pub fn api_counter_inc(&mut self)
        ensures
            *final(self) == (Metrics { counter: sat_inc(old(self).counter), ..*old(self) }),
    {
        self.counter = sat_inc_u64(self.counter);
    }

    /// Records one API request latency sample, in milliseconds.
    pub fn api_latency_record(&mut self, millis: u64)
        requires
            old(self).wf(),
        ensures
            final(self).wf(),
            hist_recorded(old(self).latency, final(self).latency, millis),
            *final(self) == (Metrics { latency: final(self).latency, ..*old(self) }),
    {
        self.latency.record(millis);
    }

    /// Counts one CSRF check failure.
    pub fn csrf_error_counter_inc(&mut self)
        ensures
            *final(self) == (Metrics {
                csrf_error_counter: sat_inc(old(self).csrf_error_counter),
                ..*old(self)
            }),
    {
        self.csrf_error_counter = sat_inc_u64(self.csrf_error_counter);
    }

    /// Counts one validation failure.
    pub fn validate_error_counter_inc(&mut self)
        ensures
            *final(self) == (Metrics {
                validate_error_counter: sat_inc(old(self).validate_error_counter),
                ..*old(self)
            }),
    {
        self.validate_error_counter = sat_inc_u64(self.validate_error_counter);
    }

    /// Counts one internal HTTP request.
    pub fn internal_counter_inc(&mut self)
        ensures
            *final(self) == (Metrics {
                internal_counter: sat_inc(old(self).internal_counter),
                ..*old(self)
            }),
    {
        self.internal_counter = sat_inc_u64(self.internal_counter);
    }

    /// Counts one internal HTTP error.
    pub fn internal_error_counter_inc(&mut self)
        ensures
            *final(self) == (Metrics {
                internal_error_counter: sat_inc(old(self).internal_error_counter),
                ..*old(self)
            }),
    {
        self.internal_error_counter = sat_inc_u64(self.internal_error_counter);
    }

    /// Records whether the storage layer is ready.
    pub fn postgres_ready(&mut self, ready: bool)
        ensures
            *final(self) == (Metrics { postgres_ready: ready, ..*old(self) }),
    {
        self.postgres_ready = ready;
    }

    /// Counts the request and returns its start time in milliseconds,
    /// to be handed back when the response is recorded.
    pub fn service_request_handler(&mut self) -> (start: u64)
        ensures
            *final(self) == (Metrics { counter: sat_inc(old(self).counter), ..*old(self) }),
    {
        self.api_counter_inc();
        now_millis()
    }

    /// Records the response: elapsed wall time into the latency
    /// distribution, and one error when the response headers are absent
    /// (the request failed in transport) or carry a failing status.
    pub fn service_response_handler(&mut self, start: u64, headers: Option<&Headers>)
        requires
            old(self).wf(),
        ensures
            final(self).wf(),
            ({
                let ok = match headers {
                    Some(h) => grpc_ok(h@),
                    None => false,
                };
                &&& final(self).error_counter == if ok {
                    old(self).error_counter
                } else {
                    sat_inc(old(self).error_counter)
                }
                &&& exists|d: u64| hist_recorded(old(self).latency, final(self).latency, d)
                &&& final(self).counter == old(self).counter
                &&& final(self).csrf_error_counter == old(self).csrf_error_counter
                &&& final(self).validate_error_counter == old(self).validate_error_counter
                &&& final(self).internal_counter == old(self).internal_counter
                &&& final(self).internal_error_counter == old(self).internal_error_counter
                &&& final(self).ready == old(self).ready
                &&& final(self).postgres_ready == old(self).postgres_ready
                &&& final(self).name == old(self).name
            }),
    {
        let ok = match headers {
            Some(h) => crate::status::http_headers_grpc_status(h) == 0,
            None => false,
        };
        if !ok {
            self.error_counter = sat_inc_u64(self.error_counter);
        }
        let now = now_millis();
        let elapsed: u64 = if now >= start {
            now - start
        } else {
            0
        };
        let ghost pre = self.latency;
        self.latency.record(elapsed);
        proof {
            assert(hist_recorded(pre, final(self).latency, elapsed));
        }
    }
}

/// One exposition block for a counter metric.
pub open spec fn counter_block(n: Seq<char>, help: Seq<char>, v: u64) -> Seq<char> {
    "# HELP "@ + n + " "@ + help + "\n# TYPE "@ + n + " counter\n"@ + n + " "@ + dec_str(v as int)
        + "\n"@
}

/// One exposition block for a 0/1 gauge metric.
pub open spec fn gauge_block(n: Seq<char>, help: Seq<char>, on: bool) -> Seq<char> {
    "# HELP "@ + n + " "@ + help + "\n# TYPE "@ + n + " gauge\n"@ + n + " "@ + (if on {
        "1"@
    } else {
        "0"@
    }) + "\n"@
}

/// Samples counted by the first `i` buckets together, saturating.
pub open spec fn cum_count(counts: Seq<u64>, i: int) -> u64
    decreases i,
{
    if i <= 0 {
        0u64
    } else {
        sat_add(cum_count(counts, i - 1), counts[i - 1])
    }
}

/// The `le` label of a bucket: its bound, or `+Inf` for the last.
pub open spec fn le_str(i: int) -> Seq<char> {
    if i == BUCKET_COUNT - 1 {
        "+Inf"@
    } else {
        dec_str(spec_bucket_bound(i))
    }
}

/// One cumulative bucket line of a histogram block.
pub open spec fn bucket_line(n: Seq<char>, le: Seq<char>, v: u64) -> Seq<char> {
    n + "_bucket{le=\""@ + le + "\"} "@ + dec_str(v as int) + "\n"@
}

/// The first `i` bucket lines of a histogram block.
pub open spec fn bucket_lines(n: Seq<char>, counts: Seq<u64>, i: int) -> Seq<char>
    decreases i,
{
    if i <= 0 {
        Seq::empty()
    } else {
        bucket_lines(n, counts, i - 1) + bucket_line(n, le_str(i - 1), cum_count(counts, i))
    }
}

/// One exposition block for a histogram metric.
pub open spec fn hist_block(n: Seq<char>, help: Seq<char>, h: Histogram) -> Seq<char> {
    "# HELP "@ + n + " "@ + help + "\n# TYPE "@ + n + " histogram\n"@ + bucket_lines(
        n,
        h.counts@,
        BUCKET_COUNT as int,
    ) + n + "_sum "@ + dec_str(h.sum as int) + "\n"@ + n + "_count "@ + dec_str(h.count as int)
        + "\n"@
}

/// The whole exposition payload of a metrics registry.
pub open spec fn export_spec(m: Metrics) -> Seq<char> {
    gauge_block(m.name@ + "_api_ready"@, "1 if API is ready, else 0."@, m.ready) + counter_block(
        m.name@ + "_api_counter_total"@,
        "Total number of API server requests made."@,
        m.counter,
    ) + counter_block(
        m.name@ + "_api_error_counter_total"@,
        "Total number of API server errors."@,
        m.error_counter,
    ) + hist_block(
        m.name@ + "_api_latency_milliseconds"@,
        "The API server request latencies in milliseconds."@,
        m.latency,
    ) + counter_block(
        m.name@ + "_api_csrf_error_counter_total"@,
        "Total number of API server CSRF check errors."@,
        m.csrf_error_counter,
    ) + counter_block(
        m.name@ + "_api_validate_error_counter_total"@,
        "Total number of API server validation check errors."@,
        m.validate_error_counter,
    ) + counter_block(
        m.name@ + "_internal_counter_total"@,
        "Total number of internal HTTP server requests made."@,
        m.internal_counter,
    ) + counter_block(
        m.name@ + "_internal_error_counter_total"@,
        "Total number of internal HTTP server errors."@,
        m.internal_error_counter,
    ) + gauge_block(m.name@ + "_postgres_ready"@, "1 if postgres is ready, else 0."@, m.postgres_ready)
}

/// Renders one counter block.
fn render_counter(n: &str, help: &str, v: u64) -> (r: String)
    ensures
        r@ == counter_block(n@, help@, v),
{
    let mut s = "# HELP ".to_owned();
    s.append(n);
    s.append(" ");
    s.append(help);
    s.append("\n# TYPE ");
    s.append(n);
    s.append(" counter\n");
    s.append(n);
    s.append(" ");
    let num = u64_to_string(v);
    s.append(num.as_str());
    s.append("\n");
    proof {
        assert(s@ =~= counter_block(n@, help@, v));
    }
    s
}

/// Renders one gauge block.
fn render_gauge(n: &str, help: &str, on: bool) -> (r: String)
    ensures
        r@ == gauge_block(n@, help@, on),
{
    let mut s = "# HELP ".to_owned();
    s.append(n);
    s.append(" ");
    s.append(help);
    s.append("\n# TYPE ");
    s.append(n);
    s.append(" gauge\n");
    s.append(n);
    s.append(" ");
    if on {
        s.append("1");
    } else {
        s.append("0");
    }
    s.append("\n");
    proof {
        assert(s@ =~= gauge_block(n@, help@, on));
    }
    s
}

/// Renders one histogram block, with cumulative bucket counts.
fn render_hist(n: &str, help: &str, h: &Histogram) -> (r: String)
    requires
        h.wf(),
    ensures
        r@ == hist_block(n@, help@, *h),
{
    let mut s = "# HELP ".to_owned();
    s.append(n);
    s.append(" ");
    s.append(help);
    s.append("\n# TYPE ");
    s.append(n);
    s.append(" histogram\n");
    let ghost head = s@;
    proof {
        assert(head + bucket_lines(n@, h.counts@, 0) =~= head);
    }
    let mut cum: u64 = 0;
    let mut i: usize = 0;
    while i < BUCKET_COUNT
        invariant
            h.wf(),
            i <= BUCKET_COUNT,
            cum == cum_count(h.counts@, i as int),
            s@ == head + bucket_lines(n@, h.counts@, i as int),
        decreases BUCKET_COUNT - i,
    {
        cum = sat_add_u64(cum, h.counts[i]);
        let le: String = if i == BUCKET_COUNT - 1 {
            "+Inf".to_owned()
        } else {
            u64_to_string(bucket_bound(i))
        };
        s.append(n);
        s.append("_bucket{le=\"");
        s.append(le.as_str());
        s.append("\"} ");
        let c = u64_to_string(cum);
        s.append(c.as_str());
        s.append("\n");
        proof {
            assert(s@ =~= head + bucket_lines(n@, h.counts@, i as int + 1));
        }
        i = i + 1;
    }
    s.append(n);
    s.append("_sum ");
    let sum = u64_to_string(h.sum);
    s.append(sum.as_str());
    s.append("\n");
    s.append(n);
    s.append("_count ");
    let count = u64_to_string(h.count);
    s.append(count.as_str());
    s.append("\n");
    proof {
        assert(s@ =~= hist_block(n@, help@, *h));
    }
    s
}

/// One step of the request counter: what `service_request_handler` and
/// `api_counter_inc` do to it.
pub open spec fn counter_step(pre: Metrics, post: Metrics) -> bool {
    post.counter == sat_inc(pre.counter)
}

/// Law: counted requests are never lost. A chain of states that starts
/// with the request counter at `c` and takes one counter step per
/// request ends with the counter at exactly `c + n`, as long as `c + n`
/// has headroom in 64 bits; exporting after all requests completed
/// therefore reads the exact number of requests.
pub proof fn lemma_counter_no_lost_updates(states: Seq<Metrics>, c: u64, n: int)
    requires
        states.len() == n + 1,
        n >= 0,
        states[0].counter == c,
        c + n <= u64::MAX,
        forall|i: int| 0 <= i < n ==> counter_step(states[i], #[trigger] states[i + 1]),
    ensures
        states[n].counter == c + n,
    decreases n,
{
    if n > 0 {
        lemma_counter_no_lost_updates(states.take(n as int), c, n - 1);
        assert(states.take(n as int)[n - 1] == states[n - 1]);
        assert(counter_step(states[n - 1], states[n]));
    }
}

} // verus!
