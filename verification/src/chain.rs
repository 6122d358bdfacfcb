//! The interceptor chain: wrapping any inner request handler with the
//! CSRF guard and the metrics recorder without touching the handler
//! itself.
//!
//! Composition order is fixed: the metrics service is outermost, so
//! failures anywhere downstream are counted; the CSRF guard comes next;
//! the business handler is innermost. The body type is opaque to both
//! wrappers: they read and write headers and status only.

use vstd::prelude::*;
use crate::csrf::{Csrf, carried_token, response_headers_after, opt_view};
use crate::headers::{Headers, HeadersView};
use crate::metrics::{Metrics, hist_recorded, sat_inc};
use crate::status::grpc_ok;
use crate::token::is_alphanumeric;

verus! {

/// A request as the interceptors see it: headers and an opaque body.
pub struct Request<B> {
    pub headers: Headers,
    pub body: B,
}

/// A response as the interceptors see it: a status, headers and an
/// opaque body.
pub struct Response<B> {
    pub status: u16,
    pub headers: Headers,
    pub body: B,
}

/// Any inner request handler the chain can wrap.
///
/// The contract every handler owes the surrounding recorder: it may
/// drive its own failure counters (the CSRF and validation counters,
/// which only grow) but leaves the recorder's request counter, error
/// counter, latency distribution, internal counters, readiness bits and
/// name untouched.
pub trait Handler<B>: Sized {
    /// The handler's own well-formedness, preserved across calls.
    open spec fn wf(&self) -> bool {
        true
    }

    /// Handles one request.
    fn handle(&mut self, metrics: &mut Metrics, req: Request<B>) -> (r: Response<B>)
        requires
            old(self).wf(),
        ensures
            final(self).wf(),
            final(metrics).counter == old(metrics).counter,
            final(metrics).error_counter == old(metrics).error_counter,
            final(metrics).latency == old(metrics).latency,
            final(metrics).internal_counter == old(metrics).internal_counter,
            final(metrics).internal_error_counter == old(metrics).internal_error_counter,
            final(metrics).ready == old(metrics).ready,
            final(metrics).postgres_ready == old(metrics).postgres_ready,
            final(metrics).name == old(metrics).name,
            final(metrics).csrf_error_counter >= old(metrics).csrf_error_counter,
            final(metrics).validate_error_counter >= old(metrics).validate_error_counter,
    ;
}

/// Service interceptor to manage csrf tokens.
pub struct CsrfService<S> {
    pub csrf: Csrf,
    pub inner: S,
}

impl<S> CsrfService<S> {
    /// Wraps an inner handler with the CSRF guard.
    pub fn wrap(csrf: Csrf, api: S) -> (r: Self)
        ensures
            r.csrf == csrf,
            r.inner == api,
    {
        CsrfService { csrf, inner: api }
    }
}

impl<B, S: Handler<B>> Handler<B> for CsrfService<S> {
    /// The guard's configuration is well-formed and the inner handler
    /// is well-formed.
    open spec fn wf(&self) -> bool {
        self.csrf.wf() && self.inner.wf()
    }

    /// Runs the request phase, the inner handler, then the response
    /// phase: the inner handler sees the annotated request without the
    /// client token header, and the returned response's headers are the
    /// response phase of whatever the inner handler produced, with the
    /// token that the request carried.
    fn handle(&mut self, metrics: &mut Metrics, req: Request<B>) -> (r: Response<B>)
        ensures
            final(self).csrf == old(self).csrf,
            old(self).csrf.config matches Some(c) ==> exists|ih: HeadersView, fresh: Seq<char>|
                fresh.len() == c.token_length && is_alphanumeric(fresh) && r.headers@
                    == response_headers_after(
                    c,
                    carried_token(req.headers@, c),
                    r.status,
                    ih,
                    fresh,
                ),
    {
        let mut req = req;
        let xsrf_token = self.csrf.service_request_handler(&mut req.headers);
        let ghost carried = opt_view(xsrf_token);

        let mut res = self.inner.handle(metrics, req);

        self.csrf.service_response_handler(xsrf_token, res.status, &mut res.headers);
        proof {
            if self.csrf.config is Some {
                let c = self.csrf.config->0;
                let (ih, fresh) = choose|ih: HeadersView, fresh: Seq<char>|
                    fresh.len() == c.token_length && is_alphanumeric(fresh) && res.headers@
                        == response_headers_after(c, carried, res.status, ih, fresh);
            }
        }
        res
    }
}

/// Service interceptor to collect counter and latency metrics.
pub struct MetricsService<S> {
    pub metrics: Metrics,
    pub inner: S,
}

impl<S> MetricsService<S> {
    /// Wraps an inner handler with the metrics recorder.
    pub fn wrap(metrics: Metrics, api: S) -> (r: Self)
        ensures
            r.metrics == metrics,
            r.inner == api,
    {
        MetricsService { metrics, inner: api }
    }

    /// Handles one request at the outermost layer: the request is
    /// counted before anything can fail downstream, one latency sample
    /// is recorded, and an error is counted exactly when the response
    /// carries a failing status.
    pub fn call<B>(&mut self, req: Request<B>) -> (r: Response<B>) where S: Handler<B>
        requires
            old(self).metrics.wf(),
            old(self).inner.wf(),
        ensures
            final(self).metrics.wf(),
            final(self).inner.wf(),
            final(self).metrics.counter == sat_inc(old(self).metrics.counter),
            final(self).metrics.error_counter == if grpc_ok(r.headers@) {
                old(self).metrics.error_counter
            } else {
                sat_inc(old(self).metrics.error_counter)
            },
            exists|d: u64|
                hist_recorded(old(self).metrics.latency, final(self).metrics.latency, d),
            final(self).metrics.internal_counter == old(self).metrics.internal_counter,
            final(self).metrics.internal_error_counter == old(self).metrics.internal_error_counter,
            final(self).metrics.ready == old(self).metrics.ready,
            final(self).metrics.postgres_ready == old(self).metrics.postgres_ready,
            final(self).metrics.name == old(self).metrics.name,
            final(self).metrics.csrf_error_counter >= old(self).metrics.csrf_error_counter,
            final(self).metrics.validate_error_counter
                >= old(self).metrics.validate_error_counter,
    {
        let request_start = self.metrics.service_request_handler();

        let res = self.inner.handle(&mut self.metrics, req);

        self.metrics.service_response_handler(request_start, Some(&res.headers));

        res
    }
}

} // verus!
