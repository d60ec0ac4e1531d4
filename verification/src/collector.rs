//! The synthetic collector and its status classification: response status
//! codes are classified into five range buckets and counted under
//! `(environment, exact code, bucket)` labels, and response latencies are
//! recorded into a labeled histogram.

use vstd::prelude::*;

use crate::assoc::assoc_map;
use crate::metrics::{
    Registry,
    MetricDef,
    MetricKind,
    ValueData,
    labels_view,
    metric_with_series,
    kind_bounds,
    bumped_counts,
};
use crate::text::{spec_dec, dec_u64_string};

verus! {

/// The range bucket of a status code: codes 100 to 599 fall in exactly
/// one of five hundred-wide buckets; anything else is not counted.
pub open spec fn spec_status_bucket(status: int) -> Option<Seq<char>> {
    if 500 <= status <= 599 {
        Some("500"@)
    } else if 400 <= status <= 499 {
        Some("400"@)
    } else if 300 <= status <= 399 {
        Some("300"@)
    } else if 200 <= status <= 299 {
        Some("200"@)
    } else if 100 <= status <= 199 {
        Some("100"@)
    } else {
        None
    }
}

/// Classifies a status code into its range bucket.
pub fn status_bucket(status_code: usize) -> (r: Option<&'static str>)
    ensures
        match r {
            Some(s) => spec_status_bucket(status_code as int) == Some(s@),
            None => spec_status_bucket(status_code as int) is None,
        },
{
    if 500 <= status_code && status_code <= 599 {
        Some("500")
    } else if 400 <= status_code && status_code <= 499 {
        Some("400")
    } else if 300 <= status_code && status_code <= 399 {
        Some("300")
    } else if 200 <= status_code && status_code <= 299 {
        Some("200")
    } else if 100 <= status_code && status_code <= 199 {
        Some("100")
    } else {
        None
    }
}

/// Classification is total and range-exact: every status from 100 to 599
/// falls in exactly one bucket, named by its hundreds range, and every
/// other status falls in none.
pub proof fn lemma_status_classification(status: int)
    ensures
        100 <= status <= 599 ==> spec_status_bucket(status) is Some,
        (status < 100 || status > 599) ==> spec_status_bucket(status) is None,
        spec_status_bucket(status) == Some("100"@) <==> 100 <= status <= 199,
        spec_status_bucket(status) == Some("200"@) <==> 200 <= status <= 299,
        spec_status_bucket(status) == Some("300"@) <==> 300 <= status <= 399,
        spec_status_bucket(status) == Some("400"@) <==> 400 <= status <= 499,
        spec_status_bucket(status) == Some("500"@) <==> 500 <= status <= 599,
{
    reveal_strlit("100");
    reveal_strlit("200");
    reveal_strlit("300");
    reveal_strlit("400");
    reveal_strlit("500");
    assert("100"@[0] == '1' && "200"@[0] == '2' && "300"@[0] == '3' && "400"@[0] == '4'
        && "500"@[0] == '5');
}

/// The counter of requests received by the plain request handler.
pub fn incoming_requests_metric() -> (r: MetricDef)
    ensures
        r.name@ == "incoming_requests"@,
        r.help@ == "Incoming Requests"@,
        labels_view(r.label_names@) == Seq::<Seq<char>>::empty(),
        r.kind@ is Counter,
{
    let r = MetricDef {
        name: "incoming_requests".to_owned(),
        help: "Incoming Requests".to_owned(),
        label_names: Vec::new(),
        kind: MetricKind::Counter,
    };
    proof {
        assert(labels_view(r.label_names@) =~= Seq::<Seq<char>>::empty());
    }
    r
}

/// The gauge of currently connected streaming clients.
pub fn connected_clients_metric() -> (r: MetricDef)
    ensures
        r.name@ == "connected_clients"@,
        r.help@ == "Connected Clients"@,
        labels_view(r.label_names@) == Seq::<Seq<char>>::empty(),
        r.kind@ is Gauge,
{
    let r = MetricDef {
        name: "connected_clients".to_owned(),
        help: "Connected Clients".to_owned(),
        label_names: Vec::new(),
        kind: MetricKind::Gauge,
    };
    proof {
        assert(labels_view(r.label_names@) =~= Seq::<Seq<char>>::empty());
    }
    r
}

/// The labeled counter of response codes, one series per
/// `(environment, exact code, range bucket)`.
pub fn response_code_metric() -> (r: MetricDef)
    ensures
        r.name@ == "response_code"@,
        r.help@ == "Response Codes"@,
        labels_view(r.label_names@) == seq!["env"@, "statuscode"@, "type"@],
        r.kind@ is Counter,
{
    let mut label_names: Vec<String> = Vec::new();
    label_names.push("env".to_owned());
    label_names.push("statuscode".to_owned());
    label_names.push("type".to_owned());
    let r = MetricDef {
        name: "response_code".to_owned(),
        help: "Response Codes".to_owned(),
        label_names,
        kind: MetricKind::Counter,
    };
    proof {
        assert(labels_view(r.label_names@) =~= seq!["env"@, "statuscode"@, "type"@]);
    }
    r
}

/// The labeled histogram of response latencies in microseconds, one
/// series per environment.
pub fn response_time_metric() -> (r: MetricDef)
    ensures
        r.name@ == "response_time"@,
        r.help@ == "Response Times"@,
        labels_view(r.label_names@) == seq!["env"@],
        r.kind@ matches crate::metrics::KindData::Histogram(b) && b =~= latency_bounds(),
{
    let mut label_names: Vec<String> = Vec::new();
    label_names.push("env".to_owned());
    let mut bounds: Vec<u64> = Vec::new();
    bounds.push(5000);
    bounds.push(10000);
    bounds.push(25000);
    bounds.push(50000);
    bounds.push(100000);
    bounds.push(250000);
    bounds.push(500000);
    bounds.push(1000000);
    bounds.push(2500000);
    bounds.push(5000000);
    bounds.push(10000000);
    let r = MetricDef {
        name: "response_time".to_owned(),
        help: "Response Times".to_owned(),
        label_names,
        kind: MetricKind::Histogram(bounds),
    };
    proof {
        assert(labels_view(r.label_names@) =~= seq!["env"@]);
    }
    r
}

/// The latency histogram's bucket upper bounds, in microseconds.
pub open spec fn latency_bounds() -> Seq<u64> {
    seq![
        5000u64,
        10000u64,
        25000u64,
        50000u64,
        100000u64,
        250000u64,
        500000u64,
        1000000u64,
        2500000u64,
        5000000u64,
        10000000u64,
    ]
}

/// The labels of the response-code series for one observation.
pub open spec fn status_labels(env: Seq<char>, status: int, bucket: Seq<char>) -> Seq<Seq<char>> {
    seq![env, spec_dec(status as nat), bucket]
}

/// Classifies a status code and counts it under
/// `(environment, exact code, bucket)`. Codes outside 100 to 599 are
/// ignored, not counted: the registry is then unchanged.
pub fn track_status_code(registry: &mut Registry, status_code: usize, env: &str)
    requires
        old(registry).wf(),
        old(registry).metrics().dom().contains("response_code"@),
        old(registry).metrics()["response_code"@].kind is Counter,
        old(registry).metrics()["response_code"@].label_names.len() == 3,
        forall|labels: Seq<Seq<char>>|
            old(registry).counter_value("response_code"@, labels) < u64::MAX,
    ensures
        final(registry).wf(),
        final(registry).metrics().dom() == old(registry).metrics().dom(),
        spec_status_bucket(status_code as int) is None ==> *final(registry) == *old(registry),
        forall|other: Seq<char>|
            old(registry).metrics().dom().contains(other) && other != "response_code"@
                ==> final(registry).metrics()[other] == old(registry).metrics()[other],
        spec_status_bucket(status_code as int) matches Some(bucket) ==> {
            let labels = status_labels(env@, status_code as int, bucket);
            &&& final(registry).metrics()["response_code"@] == metric_with_series(
                old(registry).metrics()["response_code"@],
                final(registry).metrics()["response_code"@].series,
            )
            &&& assoc_map(final(registry).metrics()["response_code"@].series) == assoc_map(
                old(registry).metrics()["response_code"@].series,
            ).insert(
                labels,
                ValueData::Counter(
                    (old(registry).counter_value("response_code"@, labels) + 1) as u64,
                ),
            )
            &&& final(registry).counter_value("response_code"@, labels) == old(registry).counter_value("response_code"@, labels) + 1
        },
{
    match status_bucket(status_code) {
        None => {},
        Some(bucket) => {
            let mut labels: Vec<String> = Vec::new();
            labels.push(env.to_owned());
            labels.push(dec_u64_string(status_code as u64));
            labels.push(bucket.to_owned());
            proof {
                assert(labels_view(labels@) =~= status_labels(
                    env@,
                    status_code as int,
                    spec_status_bucket(status_code as int).unwrap(),
                ));
            }
            registry.inc_counter("response_code", &labels, 1);
        },
    }
}

/// Records one response latency, in microseconds, into the latency
/// histogram series of the given environment.
pub fn track_request_time(registry: &mut Registry, response_time_micros: u64, env: &str)
    requires
        old(registry).wf(),
        old(registry).metrics().dom().contains("response_time"@),
        old(registry).metrics()["response_time"@].kind is Histogram,
        old(registry).metrics()["response_time"@].label_names.len() == 1,
        old(registry).histogram_count("response_time"@, seq![env@]) < u64::MAX,
        old(registry).histogram_sum("response_time"@, seq![env@]) + response_time_micros
            <= u64::MAX,
    ensures
        final(registry).wf(),
        final(registry).metrics().dom() == old(registry).metrics().dom(),
        forall|other: Seq<char>|
            old(registry).metrics().dom().contains(other) && other != "response_time"@
                ==> final(registry).metrics()[other] == old(registry).metrics()[other],
        final(registry).metrics()["response_time"@] == metric_with_series(
            old(registry).metrics()["response_time"@],
            final(registry).metrics()["response_time"@].series,
        ),
        assoc_map(final(registry).metrics()["response_time"@].series) == assoc_map(
            old(registry).metrics()["response_time"@].series,
        ).insert(
            seq![env@],
            ValueData::Histogram {
                bucket_counts: bumped_counts(
                    kind_bounds(old(registry).metrics()["response_time"@].kind),
                    old(registry).histogram_buckets("response_time"@, seq![env@]),
                    response_time_micros,
                ),
                sum: (old(registry).histogram_sum("response_time"@, seq![env@])
                    + response_time_micros) as u64,
                count: (old(registry).histogram_count("response_time"@, seq![env@]) + 1) as u64,
            },
        ),
        final(registry).histogram_count("response_time"@, seq![env@]) == old(registry).histogram_count("response_time"@, seq![env@]) + 1,
        final(registry).histogram_sum("response_time"@, seq![env@]) == old(registry).histogram_sum("response_time"@, seq![env@]) + response_time_micros,
{
    let mut labels: Vec<String> = Vec::new();
    labels.push(env.to_owned());
    proof {
        assert(labels_view(labels@) =~= seq![env@]);
    }
    registry.observe_histogram("response_time", &labels, response_time_micros);
}

/// Relies on rand's `Rng::gen_range` over a half-open integer range: the
/// sample lies in `[lo, hi)`; the call panics only on an empty range,
/// which the precondition excludes.
#[verifier::external_body]
fn sample_in_range(lo: u64, hi: u64) -> (r: u64)
    requires
        lo < hi,
    ensures
        lo <= r < hi,
{
    rand::Rng::gen_range(&mut rand::thread_rng(), lo..hi)
}

/// One tick of the synthetic collector: draws a random status code in
/// [100, 599), a random latency in [1000, 10000000) microseconds and one
/// of the two environments, counts the status under the environment, and
/// records the latency into the same environment's histogram series. The
/// drawn values are random, so the contract promises only what holds of
/// every outcome: some such status, latency and environment exist for
/// which both effects happened, and nothing else changed.
pub fn collect_once(registry: &mut Registry)
    requires
        old(registry).wf(),
        old(registry).metrics().dom().contains("response_code"@),
        old(registry).metrics()["response_code"@].kind is Counter,
        old(registry).metrics()["response_code"@].label_names.len() == 3,
        forall|labels: Seq<Seq<char>>|
            old(registry).counter_value("response_code"@, labels) < u64::MAX,
        old(registry).metrics().dom().contains("response_time"@),
        old(registry).metrics()["response_time"@].kind is Histogram,
        old(registry).metrics()["response_time"@].label_names.len() == 1,
        forall|env: Seq<char>|
            old(registry).histogram_count("response_time"@, seq![env]) < u64::MAX,
        forall|env: Seq<char>|
            old(registry).histogram_sum("response_time"@, seq![env]) + 10000000 <= u64::MAX,
    ensures
        final(registry).wf(),
        final(registry).metrics().dom() == old(registry).metrics().dom(),
        forall|other: Seq<char>|
            old(registry).metrics().dom().contains(other) && other != "response_code"@ && other
                != "response_time"@ ==> final(registry).metrics()[other] == old(registry).metrics()[other],
        final(registry).metrics()["response_code"@] == metric_with_series(
            old(registry).metrics()["response_code"@],
            final(registry).metrics()["response_code"@].series,
        ),
        final(registry).metrics()["response_time"@] == metric_with_series(
            old(registry).metrics()["response_time"@],
            final(registry).metrics()["response_time"@].series,
        ),
        exists|status: int, latency: u64, env: Seq<char>|
            {
                &&& 100 <= status < 599
                &&& 1000 <= latency < 10000000
                &&& (env == "testing"@ || env == "production"@)
                &&& assoc_map(final(registry).metrics()["response_code"@].series) == assoc_map(
                    old(registry).metrics()["response_code"@].series,
                ).insert(
                    status_labels(env, status, spec_status_bucket(status).unwrap()),
                    ValueData::Counter(
                        (old(registry).counter_value(
                            "response_code"@,
                            status_labels(env, status, spec_status_bucket(status).unwrap()),
                        ) + 1) as u64,
                    ),
                )
                &&& final(registry).counter_value(
                    "response_code"@,
                    status_labels(env, status, spec_status_bucket(status).unwrap()),
                ) == old(registry).counter_value(
                    "response_code"@,
                    status_labels(env, status, spec_status_bucket(status).unwrap()),
                ) + 1
                &&& assoc_map(final(registry).metrics()["response_time"@].series) == assoc_map(
                    old(registry).metrics()["response_time"@].series,
                ).insert(
                    seq![env],
                    ValueData::Histogram {
                        bucket_counts: bumped_counts(
                            kind_bounds(old(registry).metrics()["response_time"@].kind),
                            old(registry).histogram_buckets("response_time"@, seq![env]),
                            latency,
                        ),
                        sum: (old(registry).histogram_sum("response_time"@, seq![env])
                            + latency) as u64,
                        count: (old(registry).histogram_count("response_time"@, seq![env])
                            + 1) as u64,
                    },
                )
                &&& final(registry).histogram_count("response_time"@, seq![env]) == old(registry).histogram_count("response_time"@, seq![env]) + 1
                &&& final(registry).histogram_sum("response_time"@, seq![env]) == old(registry).histogram_sum("response_time"@, seq![env]) + latency
            },
{
    let status_code = sample_in_range(100, 599);
    let response_time_micros = sample_in_range(1000, 10000000);
    let env_index = sample_in_range(0, 2);
    let env = if env_index == 0 {
        "testing"
    } else {
        "production"
    };
    proof {
        reveal_strlit("response_code");
        reveal_strlit("response_time");
        assert("response_code"@[9] == 'c' && "response_time"@[9] == 't');
        assert("response_code"@ != "response_time"@);
    }
    track_status_code(registry, status_code as usize, env);
    let ghost mid = *registry;
    track_request_time(registry, response_time_micros, env);
    proof {
        let status = status_code as int;
        let latency = response_time_micros;
        let e = env@;
        assert(spec_status_bucket(status) is Some);
        assert(mid.metrics()["response_time"@] == old(registry).metrics()["response_time"@]);
        assert(registry.metrics()["response_code"@] == mid.metrics()["response_code"@]);
        assert(mid.histogram_count("response_time"@, seq![e]) == old(registry).histogram_count(
            "response_time"@,
            seq![e],
        ));
        assert(mid.histogram_sum("response_time"@, seq![e]) == old(registry).histogram_sum(
            "response_time"@,
            seq![e],
        ));
        assert(mid.histogram_buckets("response_time"@, seq![e]) == old(registry).histogram_buckets("response_time"@, seq![e]));
        assert(registry.metrics()["response_code"@] == metric_with_series(
            old(registry).metrics()["response_code"@],
            registry.metrics()["response_code"@].series,
        ));
        assert(registry.metrics()["response_time"@] == metric_with_series(
            old(registry).metrics()["response_time"@],
            registry.metrics()["response_time"@].series,
        ));
        assert({
            &&& 100 <= status < 599
            &&& 1000 <= latency < 10000000
            &&& (e == "testing"@ || e == "production"@)
            &&& assoc_map(registry.metrics()["response_code"@].series) == assoc_map(
                old(registry).metrics()["response_code"@].series,
            ).insert(
                status_labels(e, status, spec_status_bucket(status).unwrap()),
                ValueData::Counter(
                    (old(registry).counter_value(
                        "response_code"@,
                        status_labels(e, status, spec_status_bucket(status).unwrap()),
                    ) + 1) as u64,
                ),
            )
            &&& registry.counter_value(
                "response_code"@,
                status_labels(e, status, spec_status_bucket(status).unwrap()),
            ) == old(registry).counter_value(
                "response_code"@,
                status_labels(e, status, spec_status_bucket(status).unwrap()),
            ) + 1
            &&& assoc_map(registry.metrics()["response_time"@].series) == assoc_map(
                old(registry).metrics()["response_time"@].series,
            ).insert(
                seq![e],
                ValueData::Histogram {
                    bucket_counts: bumped_counts(
                        kind_bounds(old(registry).metrics()["response_time"@].kind),
                        old(registry).histogram_buckets("response_time"@, seq![e]),
                        latency,
                    ),
                    sum: (old(registry).histogram_sum("response_time"@, seq![e])
                        + latency) as u64,
                    count: (old(registry).histogram_count("response_time"@, seq![e]) + 1) as u64,
                },
            )
            &&& registry.histogram_count("response_time"@, seq![e]) == old(registry).histogram_count("response_time"@, seq![e]) + 1
            &&& registry.histogram_sum("response_time"@, seq![e]) == old(registry).histogram_sum(
                "response_time"@,
                seq![e],
            ) + latency
        });
    }
}

} // verus!
