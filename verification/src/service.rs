//! The service's fixed metric set and the recorders that feed it.
//!
//! One registry carries the six metrics the service exposes.  The
//! recorders translate one event — a handled request, a scored or
//! rejected prediction, a sampler tick — into the exact counter,
//! histogram and gauge updates the contracts name.

use vstd::prelude::*;
use vstd::string::StringExecFns;
use crate::fbits::spec_is_finite;
use crate::model::{PredictionResponse, ValidationError, ZERO_BITS};
use crate::registry::{export_counter, export_gauge, export_histogram, labels_view, lemma_contains_left, lemma_contains_right, lemma_counter_export_contains_name, lemma_gauge_export_contains_name, lemma_hist_export_contains_name, spec_counter_export, spec_gauge_export, spec_hist_export, spec_text_contains, CounterVec, GaugeMetric, HistogramVec};
use crate::scaled::{spec_dec, spec_nanos, u64_to_dec};

verus! {

/// A pattern below the infinity range is finite.
proof fn lemma_small_is_finite(b: u64)
    requires
        b < 0x7ff0000000000000,
    ensures
        spec_is_finite(b),
{
    assert(b < 0x7ff0000000000000 ==> ((b >> 52) & 0x7ff) != 0x7ff) by (bit_vector);
}

/// The six metrics the service exposes.
pub struct MetricsRegistry {
    pub http_requests_total: CounterVec,
    pub http_request_duration_seconds: HistogramVec,
    pub ml_predictions_total: CounterVec,
    pub ml_prediction_confidence: HistogramVec,
    pub active_connections_total: GaugeMetric,
    pub service_uptime_seconds: GaugeMetric,
}

impl MetricsRegistry {
    pub open spec fn wf(&self) -> bool {
        &&& self.http_requests_total.wf()
        &&& self.http_requests_total.name@ == "http_requests_total"@
        &&& labels_view(self.http_requests_total.label_names@) =~= seq![
            "method"@,
            "endpoint"@,
            "status"@,
        ]
        &&& self.http_request_duration_seconds.wf()
        &&& self.http_request_duration_seconds.name@ == "http_request_duration_seconds"@
        &&& labels_view(self.http_request_duration_seconds.label_names@) =~= seq![
            "method"@,
            "endpoint"@,
        ]
        &&& self.ml_predictions_total.wf()
        &&& self.ml_predictions_total.name@ == "ml_predictions_total"@
        &&& labels_view(self.ml_predictions_total.label_names@) =~= seq![
            "model_version"@,
            "status"@,
        ]
        &&& self.ml_prediction_confidence.wf()
        &&& self.ml_prediction_confidence.name@ == "ml_prediction_confidence"@
        &&& labels_view(self.ml_prediction_confidence.label_names@) =~= seq!["model_version"@]
        &&& self.active_connections_total.wf()
        &&& self.active_connections_total.name@ == "active_connections_total"@
        &&& self.service_uptime_seconds.wf()
        &&& self.service_uptime_seconds.name@ == "service_uptime_seconds"@
    }

    /// The registry at startup: every metric declared, nothing counted.
    pub fn new() -> (r: MetricsRegistry)
        ensures
            r.wf(),
            forall|k: Seq<Seq<char>>| r.http_requests_total.spec_value(k) == 0,
            forall|k: Seq<Seq<char>>| r.ml_predictions_total.spec_value(k) == 0,
            forall|k: Seq<Seq<char>>|
                #[trigger] r.http_request_duration_seconds.spec_history(k) == Seq::<u64>::empty(),
            forall|k: Seq<Seq<char>>|
                #[trigger] r.ml_prediction_confidence.spec_history(k) == Seq::<u64>::empty(),
            r.active_connections_total.value_nanos == 0,
            r.service_uptime_seconds.value_nanos == 0,
    {
        let http_labels = vec![
            "method".to_owned(),
            "endpoint".to_owned(),
            "status".to_owned(),
        ];
        let duration_labels = vec!["method".to_owned(), "endpoint".to_owned()];
        let prediction_labels = vec!["model_version".to_owned(), "status".to_owned()];
        let confidence_labels = vec!["model_version".to_owned()];
        let duration_bounds = vec![
            0x3f50624dd2f1a9fcu64,  // 0.001
            0x3f747ae147ae147bu64,  // 0.005
            0x3f847ae147ae147bu64,  // 0.01
            0x3fa999999999999au64,  // 0.05
            0x3fb999999999999au64,  // 0.1
            0x3fd0000000000000u64,  // 0.25
            0x3fe0000000000000u64,  // 0.5
            0x3ff0000000000000u64,  // 1.0
            0x4004000000000000u64,  // 2.5
            0x4014000000000000u64,  // 5.0
            0x4024000000000000u64,  // 10.0
        ];
        let confidence_bounds = vec![
            0x3feb333333333333u64,  // 0.85
            0x3febd70a3d70a3d7u64,  // 0.87
            0x3fec7ae147ae147bu64,  // 0.89
            0x3fed1eb851eb851fu64,  // 0.91
            0x3fedc28f5c28f5c3u64,  // 0.93
            0x3fee666666666666u64,  // 0.95
            0x3fef0a3d70a3d70au64,  // 0.97
            0x3fefae147ae147aeu64,  // 0.99
            0x3ff0000000000000u64,  // 1.0
        ];
        proof {
            assert forall|j: int|
                0 <= j < duration_bounds@.len() implies spec_is_finite(
                #[trigger] duration_bounds@[j],
            ) by {
                lemma_small_is_finite(duration_bounds@[j]);
            }
            assert forall|j: int|
                0 <= j < confidence_bounds@.len() implies spec_is_finite(
                #[trigger] confidence_bounds@[j],
            ) by {
                lemma_small_is_finite(confidence_bounds@[j]);
            }
        }
        let r = MetricsRegistry {
            http_requests_total: CounterVec::new(
                "http_requests_total".to_owned(),
                "Total number of HTTP requests processed".to_owned(),
                http_labels,
            ),
            http_request_duration_seconds: HistogramVec::new(
                "http_request_duration_seconds".to_owned(),
                "HTTP request latency in seconds".to_owned(),
                duration_labels,
                duration_bounds,
            ),
            ml_predictions_total: CounterVec::new(
                "ml_predictions_total".to_owned(),
                "Total number of ML predictions made".to_owned(),
                prediction_labels,
            ),
            ml_prediction_confidence: HistogramVec::new(
                "ml_prediction_confidence".to_owned(),
                "Distribution of ML prediction confidence scores".to_owned(),
                confidence_labels,
                confidence_bounds,
            ),
            active_connections_total: GaugeMetric::new(
                "active_connections_total".to_owned(),
                "Number of active connections".to_owned(),
            ),
            service_uptime_seconds: GaugeMetric::new(
                "service_uptime_seconds".to_owned(),
                "Service uptime in seconds since start".to_owned(),
            ),
        };
        r
    }

    /// The whole exposition text: the six metrics, each with its
    /// header and current samples, in declaration order.
    pub open spec fn spec_export(&self) -> Seq<char> {
        spec_counter_export(self.http_requests_total) + spec_hist_export(
            self.http_request_duration_seconds,
        ) + spec_counter_export(self.ml_predictions_total) + spec_hist_export(
            self.ml_prediction_confidence,
        ) + spec_gauge_export(self.active_connections_total) + spec_gauge_export(
            self.service_uptime_seconds,
        )
    }

    pub fn export(&self) -> (s: String)
        requires
            self.wf(),
        ensures
            s@ == self.spec_export(),
    {
        let mut out = String::new();
        export_counter(&self.http_requests_total, &mut out);
        export_histogram(&self.http_request_duration_seconds, &mut out);
        export_counter(&self.ml_predictions_total, &mut out);
        export_histogram(&self.ml_prediction_confidence, &mut out);
        export_gauge(&self.active_connections_total, &mut out);
        export_gauge(&self.service_uptime_seconds, &mut out);
        proof {
            assert(out@ =~= self.spec_export());
        }
        out
    }
}

/// The exposition text of a well-formed registry carries each of the
/// six metric names the service promises to expose.
pub proof fn lemma_export_contains_all_names(r: MetricsRegistry)
    requires
        r.wf(),
    ensures
        spec_text_contains(r.spec_export(), "http_requests_total"@),
        spec_text_contains(r.spec_export(), "http_request_duration_seconds"@),
        spec_text_contains(r.spec_export(), "ml_predictions_total"@),
        spec_text_contains(r.spec_export(), "ml_prediction_confidence"@),
        spec_text_contains(r.spec_export(), "active_connections_total"@),
        spec_text_contains(r.spec_export(), "service_uptime_seconds"@),
{
    let c1 = spec_counter_export(r.http_requests_total);
    let h1 = spec_hist_export(r.http_request_duration_seconds);
    let c2 = spec_counter_export(r.ml_predictions_total);
    let h2 = spec_hist_export(r.ml_prediction_confidence);
    let g1 = spec_gauge_export(r.active_connections_total);
    let g2 = spec_gauge_export(r.service_uptime_seconds);
    lemma_counter_export_contains_name(r.http_requests_total);
    lemma_hist_export_contains_name(r.http_request_duration_seconds);
    lemma_counter_export_contains_name(r.ml_predictions_total);
    lemma_gauge_export_contains_name(r.active_connections_total);
    lemma_gauge_export_contains_name(r.service_uptime_seconds);
    lemma_hist_export_contains_name(r.ml_prediction_confidence);
    lemma_contains_left(c1, h1, "http_requests_total"@);
    lemma_contains_left(c1 + h1, c2, "http_requests_total"@);
    lemma_contains_left(c1 + h1 + c2, h2, "http_requests_total"@);
    lemma_contains_left(c1 + h1 + c2 + h2, g1, "http_requests_total"@);
    lemma_contains_left(c1 + h1 + c2 + h2 + g1, g2, "http_requests_total"@);
    lemma_contains_right(c1, h1, "http_request_duration_seconds"@);
    lemma_contains_left(c1 + h1, c2, "http_request_duration_seconds"@);
    lemma_contains_left(c1 + h1 + c2, h2, "http_request_duration_seconds"@);
    lemma_contains_left(c1 + h1 + c2 + h2, g1, "http_request_duration_seconds"@);
    lemma_contains_left(c1 + h1 + c2 + h2 + g1, g2, "http_request_duration_seconds"@);
    lemma_contains_right(c1 + h1, c2, "ml_predictions_total"@);
    lemma_contains_left(c1 + h1 + c2, h2, "ml_predictions_total"@);
    lemma_contains_left(c1 + h1 + c2 + h2, g1, "ml_predictions_total"@);
    lemma_contains_left(c1 + h1 + c2 + h2 + g1, g2, "ml_predictions_total"@);
    lemma_contains_right(c1 + h1 + c2, h2, "ml_prediction_confidence"@);
    lemma_contains_left(c1 + h1 + c2 + h2, g1, "ml_prediction_confidence"@);
    lemma_contains_left(c1 + h1 + c2 + h2 + g1, g2, "ml_prediction_confidence"@);
    lemma_contains_right(c1 + h1 + c2 + h2, g1, "active_connections_total"@);
    lemma_contains_left(c1 + h1 + c2 + h2 + g1, g2, "active_connections_total"@);
    lemma_contains_right(c1 + h1 + c2 + h2 + g1, g2, "service_uptime_seconds"@);
}

/// Records one handled request: the request counter under
/// (method, endpoint, status) grows by one, and the duration pattern
/// joins the latency histogram under (method, endpoint).
pub fn record_http_request(
    reg: &mut MetricsRegistry,
    method: &str,
    endpoint: &str,
    status: u16,
    duration_bits: u64,
)
    requires
        old(reg).wf(),
    ensures
        final(reg).wf(),
        final(reg).http_requests_total.spec_value(
            seq![method@, endpoint@, spec_dec(status as nat)],
        ) == if old(reg).http_requests_total.spec_value(
            seq![method@, endpoint@, spec_dec(status as nat)],
        ) == u64::MAX {
            u64::MAX
        } else {
            (old(reg).http_requests_total.spec_value(
                seq![method@, endpoint@, spec_dec(status as nat)],
            ) + 1) as u64
        },
        forall|k: Seq<Seq<char>>|
            k != seq![method@, endpoint@, spec_dec(status as nat)] ==> #[trigger] final(reg).http_requests_total.spec_value(k) == old(reg).http_requests_total.spec_value(k),
        final(reg).http_request_duration_seconds.spec_history(seq![method@, endpoint@]) == old(
            reg,
        ).http_request_duration_seconds.spec_history(seq![method@, endpoint@]).push(duration_bits),
        final(reg).http_request_duration_seconds.spec_sum_nanos(seq![method@, endpoint@])
            == crate::registry::spec_sat_add_nanos(
            old(reg).http_request_duration_seconds.spec_sum_nanos(seq![method@, endpoint@]),
            spec_nanos(duration_bits),
        ),
        forall|k: Seq<Seq<char>>|
            k != seq![method@, endpoint@] ==> #[trigger] final(reg).http_request_duration_seconds.spec_history(k) == old(
                reg,
            ).http_request_duration_seconds.spec_history(k),
        forall|k: Seq<Seq<char>>|
            k != seq![method@, endpoint@] ==> #[trigger] final(reg).http_request_duration_seconds.spec_sum_nanos(k) == old(
                reg,
            ).http_request_duration_seconds.spec_sum_nanos(k),
        final(reg).ml_predictions_total == old(reg).ml_predictions_total,
        final(reg).ml_prediction_confidence == old(reg).ml_prediction_confidence,
        final(reg).active_connections_total == old(reg).active_connections_total,
        final(reg).service_uptime_seconds == old(reg).service_uptime_seconds,
{
    let status_text = u64_to_dec(status as u64);
    let counter_labels = vec![method.to_owned(), endpoint.to_owned(), status_text];
    proof {
        assert(labels_view(counter_labels@) =~= seq![method@, endpoint@, spec_dec(status as nat)]);
    }
    reg.http_requests_total.inc(counter_labels);
    let duration_labels = vec![method.to_owned(), endpoint.to_owned()];
    proof {
        assert(labels_view(duration_labels@) =~= seq![method@, endpoint@]);
    }
    reg.http_request_duration_seconds.observe(duration_labels, duration_bits);
}

/// Records one prediction outcome: the prediction counter under
/// (model_version, "success" or "error") grows by one; on success the
/// confidence pattern joins the confidence histogram under
/// (model_version), and on failure that histogram is untouched.
pub fn record_ml_prediction(
    reg: &mut MetricsRegistry,
    model_version: &str,
    confidence_bits: u64,
    success: bool,
)
    requires
        old(reg).wf(),
    ensures
        final(reg).wf(),
        final(reg).ml_predictions_total.spec_value(
            seq![model_version@, if success { "success"@ } else { "error"@ }],
        ) == if old(reg).ml_predictions_total.spec_value(
            seq![model_version@, if success { "success"@ } else { "error"@ }],
        ) == u64::MAX {
            u64::MAX
        } else {
            (old(reg).ml_predictions_total.spec_value(
                seq![model_version@, if success { "success"@ } else { "error"@ }],
            ) + 1) as u64
        },
        forall|k: Seq<Seq<char>>|
            k != seq![model_version@, if success { "success"@ } else { "error"@ }]
                ==> #[trigger] final(reg).ml_predictions_total.spec_value(k) == old(
                reg,
            ).ml_predictions_total.spec_value(k),
        success ==> final(reg).ml_prediction_confidence.spec_history(seq![model_version@]) == old(
            reg,
        ).ml_prediction_confidence.spec_history(seq![model_version@]).push(confidence_bits),
        success ==> final(reg).ml_prediction_confidence.spec_sum_nanos(seq![model_version@])
            == crate::registry::spec_sat_add_nanos(
            old(reg).ml_prediction_confidence.spec_sum_nanos(seq![model_version@]),
            spec_nanos(confidence_bits),
        ),
        success ==> forall|k: Seq<Seq<char>>|
            k != seq![model_version@] ==> #[trigger] final(reg).ml_prediction_confidence.spec_history(k) == old(
                reg,
            ).ml_prediction_confidence.spec_history(k),
        success ==> forall|k: Seq<Seq<char>>|
            k != seq![model_version@] ==> #[trigger] final(reg).ml_prediction_confidence.spec_sum_nanos(k) == old(
                reg,
            ).ml_prediction_confidence.spec_sum_nanos(k),
        !success ==> final(reg).ml_prediction_confidence == old(reg).ml_prediction_confidence,
        final(reg).http_requests_total == old(reg).http_requests_total,
        final(reg).http_request_duration_seconds == old(reg).http_request_duration_seconds,
        final(reg).active_connections_total == old(reg).active_connections_total,
        final(reg).service_uptime_seconds == old(reg).service_uptime_seconds,
{
    let status_text = if success {
        "success".to_owned()
    } else {
        "error".to_owned()
    };
    let counter_labels = vec![model_version.to_owned(), status_text];
    proof {
        assert(labels_view(counter_labels@) =~= seq![
            model_version@,
            if success {
                "success"@
            } else {
                "error"@
            },
        ]);
    }
    reg.ml_predictions_total.inc(counter_labels);
    if success {
        let confidence_labels = vec![model_version.to_owned()];
        proof {
            assert(labels_view(confidence_labels@) =~= seq![model_version@]);
        }
        reg.ml_prediction_confidence.observe(confidence_labels, confidence_bits);
    }
}

/// Moves the connections gauge to the given pattern's reading.
pub fn set_active_connections(reg: &mut MetricsRegistry, count_bits: u64)
    requires
        old(reg).wf(),
    ensures
        final(reg).wf(),
        final(reg).active_connections_total.value_nanos == spec_nanos(count_bits),
        final(reg).http_requests_total == old(reg).http_requests_total,
        final(reg).http_request_duration_seconds == old(reg).http_request_duration_seconds,
        final(reg).ml_predictions_total == old(reg).ml_predictions_total,
        final(reg).ml_prediction_confidence == old(reg).ml_prediction_confidence,
        final(reg).service_uptime_seconds == old(reg).service_uptime_seconds,
{
    reg.active_connections_total.set_from_bits(count_bits);
}

/// The periodic uptime writer.  Idle until started; started at most
/// once; each tick moves the uptime gauge to the elapsed reading the
/// caller measured.
pub struct UptimeSampler {
    pub running: bool,
}

impl UptimeSampler {
    /// A sampler that has not started.
    pub fn new() -> (s: UptimeSampler)
        ensures
            !s.running,
    {
        UptimeSampler { running: false }
    }

    /// Starts the sampler: the uptime gauge reads zero.  A second
    /// start is ruled out by the precondition.
    pub fn start(&mut self, reg: &mut MetricsRegistry)
        requires
            !old(self).running,
            old(reg).wf(),
        ensures
            final(self).running,
            final(reg).wf(),
            final(reg).service_uptime_seconds.value_nanos == 0,
            final(reg).http_requests_total == old(reg).http_requests_total,
            final(reg).http_request_duration_seconds == old(reg).http_request_duration_seconds,
            final(reg).ml_predictions_total == old(reg).ml_predictions_total,
            final(reg).ml_prediction_confidence == old(reg).ml_prediction_confidence,
            final(reg).active_connections_total == old(reg).active_connections_total,
    {
        reg.service_uptime_seconds.set_nanos(0);
        self.running = true;
    }

    /// One tick: the uptime gauge moves to the elapsed pattern's
    /// reading.  The reading keeps the patterns' numeric order
    /// (`scaled::lemma_nanos_monotone`), so a clock that never runs
    /// backwards keeps the gauge non-decreasing.
    pub fn tick(&self, reg: &mut MetricsRegistry, elapsed_bits: u64)
        requires
            self.running,
            old(reg).wf(),
        ensures
            final(reg).wf(),
            final(reg).service_uptime_seconds.value_nanos == spec_nanos(elapsed_bits),
            final(reg).http_requests_total == old(reg).http_requests_total,
            final(reg).http_request_duration_seconds == old(reg).http_request_duration_seconds,
            final(reg).ml_predictions_total == old(reg).ml_predictions_total,
            final(reg).ml_prediction_confidence == old(reg).ml_prediction_confidence,
            final(reg).active_connections_total == old(reg).active_connections_total,
    {
        reg.service_uptime_seconds.set_from_bits(elapsed_bits);
    }
}

/// Turns one prediction outcome into its HTTP status and its metric
/// updates: a success is recorded under the response's own version
/// label with its confidence and answers 200; a failure is recorded
/// under the fixed fallback version label and answers 400.
pub fn handle_prediction_outcome(
    reg: &mut MetricsRegistry,
    outcome: &Result<PredictionResponse, ValidationError>,
) -> (status: u16)
    requires
        old(reg).wf(),
    ensures
        final(reg).wf(),
        status == if outcome is Ok {
            200u16
        } else {
            400u16
        },
        outcome matches Ok(resp) ==> final(reg).ml_predictions_total.spec_value(
            seq![resp.model_version@, "success"@],
        ) == if old(reg).ml_predictions_total.spec_value(seq![resp.model_version@, "success"@])
            == u64::MAX {
            u64::MAX
        } else {
            (old(reg).ml_predictions_total.spec_value(seq![resp.model_version@, "success"@])
                + 1) as u64
        },
        outcome matches Ok(resp) ==> final(reg).ml_prediction_confidence.spec_history(
            seq![resp.model_version@],
        ) == old(reg).ml_prediction_confidence.spec_history(seq![resp.model_version@]).push(
            resp.confidence_bits,
        ),
        outcome matches Ok(resp) ==> final(reg).ml_prediction_confidence.spec_sum_nanos(
            seq![resp.model_version@],
        ) == crate::registry::spec_sat_add_nanos(
            old(reg).ml_prediction_confidence.spec_sum_nanos(seq![resp.model_version@]),
            spec_nanos(resp.confidence_bits),
        ),
        outcome is Err ==> final(reg).ml_predictions_total.spec_value(seq!["v1.0.0"@, "error"@])
            == if old(reg).ml_predictions_total.spec_value(seq!["v1.0.0"@, "error"@]) == u64::MAX {
            u64::MAX
        } else {
            (old(reg).ml_predictions_total.spec_value(seq!["v1.0.0"@, "error"@]) + 1) as u64
        },
        outcome is Err ==> final(reg).ml_prediction_confidence == old(reg).ml_prediction_confidence,
        final(reg).http_requests_total == old(reg).http_requests_total,
        final(reg).http_request_duration_seconds == old(reg).http_request_duration_seconds,
        final(reg).active_connections_total == old(reg).active_connections_total,
        final(reg).service_uptime_seconds == old(reg).service_uptime_seconds,
{
    match outcome {
        Ok(resp) => {
            record_ml_prediction(reg, resp.model_version.as_str(), resp.confidence_bits, true);
            200
        },
        Err(_) => {
            record_ml_prediction(reg, "v1.0.0", ZERO_BITS, false);
            400
        },
    }
}

} // verus!
