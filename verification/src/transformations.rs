//! The transformation strategies that make up a pipeline step, and the
//! pipeline that chains them: filtering, whole-stream aggregation, and
//! time-bucketed aggregation.

use vstd::prelude::*;
use crate::errors::{MetricQueryError, MetricQueryResult};
use crate::models::metric::{clone_metric, clone_metrics, values_of, Metric};
use crate::plugin_impls::{
    filter_equivalent, AnyAggregation, AnyFilter, AnyTimeGrouping, LabelFilter, LabelInFilter,
};
use crate::plugins::{
    str_eq, AggregationPlugin, FilterPlugin, PluginRegistry, TimeGroupingPlugin,
};

verus! {

/// One pipeline step: a pure transformation of a metric collection that
/// either produces the output collection or reports the first error.
pub trait TransformationStrategy: Sized {
    /// Whether the transformation succeeds on this input.
    spec fn spec_ok(&self, input: Seq<Metric>) -> bool;

    /// The output on success.
    spec fn spec_output(&self, input: Seq<Metric>) -> Seq<Metric>
        recommends
            self.spec_ok(input),
    ;

    /// Which errors the transformation can report on failure.
    spec fn spec_err(&self, input: Seq<Metric>, e: MetricQueryError) -> bool;

    /// Apply the transformation to a collection of metrics.
    fn apply(&self, metrics: &[Metric]) -> (r: MetricQueryResult<Vec<Metric>>)
        ensures
            self.spec_ok(metrics@) ==> (r matches Ok(v) && v@ == self.spec_output(metrics@)),
            !self.spec_ok(metrics@) ==> (r matches Err(e) && self.spec_err(metrics@, e)),
    ;
}

/// Retains, in original relative order and unchanged, every metric the
/// bound filter accepts. Never fails.
pub struct FilterTransformation<F: FilterPlugin> {
    pub filter: F,
}

impl<F: FilterPlugin> FilterTransformation<F> {
    /// Create a new filter transformation.
    pub fn new(filter: F) -> (r: Self)
        ensures
            r.filter == filter,
    {
        FilterTransformation { filter }
    }
}

impl<F: FilterPlugin> TransformationStrategy for FilterTransformation<F> {
    open spec fn spec_ok(&self, input: Seq<Metric>) -> bool {
        true
    }

    open spec fn spec_output(&self, input: Seq<Metric>) -> Seq<Metric> {
        input.filter(|m: Metric| self.filter.spec_accepts(m))
    }

    open spec fn spec_err(&self, input: Seq<Metric>, e: MetricQueryError) -> bool {
        false
    }

    fn apply(&self, metrics: &[Metric]) -> (r: MetricQueryResult<Vec<Metric>>) {
        let mut result: Vec<Metric> = Vec::new();
        let mut i: usize = 0;
        proof {
            reveal(Seq::filter);
            assert(metrics@.take(0) =~= Seq::<Metric>::empty());
        }
        while i < metrics.len()
            invariant
                0 <= i <= metrics@.len(),
                result@ == metrics@.take(i as int).filter(
                    |m: Metric| self.filter.spec_accepts(m),
                ),
            decreases metrics@.len() - i,
        {
            proof {
                reveal(Seq::filter);
                assert(metrics@.take(i as int + 1).drop_last() =~= metrics@.take(i as int));
                assert(metrics@.take(i as int + 1).last() == metrics@[i as int]);
            }
            let m = &metrics[i];
            if self.filter.apply(m) {
                result.push(clone_metric(m));
            }
            i = i + 1;
        }
        proof {
            assert(metrics@.take(metrics@.len() as int) =~= metrics@);
        }
        Ok(result)
    }
}

/// Reduces the whole input to one metric: the aggregated value, under the
/// timestamp and label of the first input element. Fails exactly on empty
/// input.
pub struct AggregationTransformation<A: AggregationPlugin> {
    pub aggregation: A,
}

impl<A: AggregationPlugin> AggregationTransformation<A> {
    /// Create a new aggregation transformation.
    pub fn new(aggregation: A) -> (r: Self)
        ensures
            r.aggregation == aggregation,
    {
        AggregationTransformation { aggregation }
    }
}

impl<A: AggregationPlugin> TransformationStrategy for AggregationTransformation<A> {
    open spec fn spec_ok(&self, input: Seq<Metric>) -> bool {
        input.len() > 0
    }

    open spec fn spec_output(&self, input: Seq<Metric>) -> Seq<Metric> {
        seq![
            (Metric {
                value: self.aggregation.spec_value(values_of(input)),
                timestamp: input[0].timestamp,
                label: input[0].label,
            }),
        ]
    }

    open spec fn spec_err(&self, input: Seq<Metric>, e: MetricQueryError) -> bool {
        e is EmptyMetricStream
    }

    fn apply(&self, metrics: &[Metric]) -> (r: MetricQueryResult<Vec<Metric>>) {
        if metrics.len() == 0 {
            return Err(MetricQueryError::EmptyMetricStream);
        }
        let value = match self.aggregation.apply(metrics) {
            Ok(v) => v,
            Err(e) => {
                // unreachable: the aggregation contract promises success on
                // non-empty input
                proof {
                    assert(false);
                }
                return Err(e);
            },
        };
        let first = &metrics[0];
        let timestamp = first.timestamp;
        let label: Option<String> = match &first.label {
            Some(s) => Some(s.clone()),
            None => None,
        };
        let mut result: Vec<Metric> = Vec::new();
        result.push(Metric { value, timestamp, label });
        proof {
            assert(result@ =~= self.spec_output(metrics@));
        }
        Ok(result)
    }
}

/// Partitions the input by the bucket start of each metric's timestamp,
/// aggregates each bucket's values independently, and emits one unlabeled
/// metric per distinct bucket, in order of first occurrence of the bucket.
/// Fails on empty input, and on the first timestamp the grouping plugin
/// rejects.
pub struct TimeGroupingTransformation<G: TimeGroupingPlugin, A: AggregationPlugin> {
    pub time_grouping: G,
    pub aggregation: A,
}

impl<G: TimeGroupingPlugin, A: AggregationPlugin> TimeGroupingTransformation<G, A> {
    /// Create a new time grouping transformation with an aggregation.
    pub fn new(time_grouping: G, aggregation: A) -> (r: Self)
        ensures
            r.time_grouping == time_grouping,
            r.aggregation == aggregation,
    {
        TimeGroupingTransformation { time_grouping, aggregation }
    }

    /// Every timestamp of the input can be interpreted by the grouping
    /// plugin.
    pub open spec fn spec_all_valid(&self, input: Seq<Metric>) -> bool {
        forall|j: int| #![trigger input[j]]
            0 <= j < input.len() ==> self.time_grouping.spec_valid(input[j].timestamp as int)
    }

    /// The distinct bucket start times of the input, in order of first
    /// occurrence.
    pub open spec fn spec_buckets(&self, input: Seq<Metric>) -> Seq<int>
        decreases input.len(),
    {
        if input.len() == 0 {
            Seq::empty()
        } else {
            let rest = self.spec_buckets(input.drop_last());
            let b = self.time_grouping.spec_bucket(input.last().timestamp as int);
            if rest.contains(b) {
                rest
            } else {
                rest.push(b)
            }
        }
    }

    /// The values of the input metrics that fall in one bucket, in input
    /// order.
    pub open spec fn spec_bucket_values(&self, input: Seq<Metric>, b: int) -> Seq<i64> {
        values_of(
            input.filter(|m: Metric| self.time_grouping.spec_bucket(m.timestamp as int) == b),
        )
    }

    /// The output: one metric per distinct bucket, carrying the bucket
    /// start as its timestamp, the aggregate of the bucket's values, and no
    /// label.
    pub open spec fn spec_grouped(&self, input: Seq<Metric>) -> Seq<Metric> {
        Seq::new(
            self.spec_buckets(input).len(),
            |k: int|
                (Metric {
                    value: self.aggregation.spec_value(
                        self.spec_bucket_values(input, self.spec_buckets(input)[k]),
                    ),
                    timestamp: self.spec_buckets(input)[k] as i64,
                    label: None,
                }),
        )
    }

    /// A bucket is listed exactly when some input metric falls in it.
    pub proof fn lemma_bucket_membership(&self, input: Seq<Metric>, b: int)
        ensures
            self.spec_buckets(input).contains(b) <==> (exists|j: int| #![trigger input[j]]
                0 <= j < input.len() && self.time_grouping.spec_bucket(input[j].timestamp as int)
                    == b),
        decreases input.len(),
    {
        if input.len() > 0 {
            let pre = input.drop_last();
            self.lemma_bucket_membership(pre, b);
            let rest = self.spec_buckets(pre);
            let lastb = self.time_grouping.spec_bucket(input.last().timestamp as int);
            let cur = self.spec_buckets(input);
            assert(forall|j: int| #![trigger pre[j]] 0 <= j < pre.len() ==> pre[j] == input[j]);
            if cur.contains(b) {
                if !rest.contains(b) {
                    let idx = choose|idx: int| 0 <= idx < cur.len() && cur[idx] == b;
                    if idx < rest.len() {
                        assert(rest[idx] == b);
                        assert(rest.contains(b));
                    } else {
                        assert(b == lastb);
                    }
                }
                if rest.contains(b) {
                    let j = choose|j: int| #![trigger pre[j]]
                        0 <= j < pre.len() && self.time_grouping.spec_bucket(
                            pre[j].timestamp as int,
                        ) == b;
                    assert(self.time_grouping.spec_bucket(input[j].timestamp as int) == b);
                } else {
                    assert(self.time_grouping.spec_bucket(
                        input[input.len() - 1].timestamp as int,
                    ) == b);
                }
            }
            if exists|j: int| #![trigger input[j]]
                0 <= j < input.len() && self.time_grouping.spec_bucket(input[j].timestamp as int)
                    == b {
                let j = choose|j: int| #![trigger input[j]]
                    0 <= j < input.len() && self.time_grouping.spec_bucket(
                        input[j].timestamp as int,
                    ) == b;
                if j < input.len() - 1 {
                    assert(self.time_grouping.spec_bucket(pre[j].timestamp as int) == b);
                    assert(rest.contains(b));
                    let i2 = choose|i2: int| 0 <= i2 < rest.len() && rest[i2] == b;
                    assert(cur[i2] == b);
                    assert(cur.contains(b));
                } else {
                    if rest.contains(b) {
                        let i2 = choose|i2: int| 0 <= i2 < rest.len() && rest[i2] == b;
                        assert(cur[i2] == b);
                        assert(cur.contains(b));
                    } else {
                        assert(cur[rest.len() as int] == b);
                        assert(cur.contains(b));
                    }
                }
            }
        }
    }

    /// How one more metric extends a bucket's value sequence.
    pub proof fn lemma_bucket_values_step(&self, input: Seq<Metric>, b: int)
        requires
            input.len() > 0,
        ensures
            self.time_grouping.spec_bucket(input.last().timestamp as int) == b
                ==> self.spec_bucket_values(input, b) == self.spec_bucket_values(
                input.drop_last(),
                b,
            ).push(input.last().value),
            self.time_grouping.spec_bucket(input.last().timestamp as int) != b
                ==> self.spec_bucket_values(input, b) == self.spec_bucket_values(
                input.drop_last(),
                b,
            ),
    {
        reveal(Seq::filter);
        if self.time_grouping.spec_bucket(input.last().timestamp as int) == b {
            assert(self.spec_bucket_values(input, b) =~= self.spec_bucket_values(
                input.drop_last(),
                b,
            ).push(input.last().value));
        }
    }

    /// A bucket that some input metric falls in holds at least one value.
    pub proof fn lemma_bucket_values_nonempty(&self, input: Seq<Metric>, j: int, b: int)
        requires
            0 <= j < input.len(),
            self.time_grouping.spec_bucket(input[j].timestamp as int) == b,
        ensures
            self.spec_bucket_values(input, b).len() > 0,
        decreases input.len(),
    {
        reveal(Seq::filter);
        if j < input.len() - 1 {
            let pre = input.drop_last();
            assert(pre[j] == input[j]);
            self.lemma_bucket_values_nonempty(pre, j, b);
        }
    }
}

impl<G: TimeGroupingPlugin, A: AggregationPlugin> TransformationStrategy
    for TimeGroupingTransformation<G, A> {
    open spec fn spec_ok(&self, input: Seq<Metric>) -> bool {
        input.len() > 0 && self.spec_all_valid(input)
    }

    open spec fn spec_output(&self, input: Seq<Metric>) -> Seq<Metric> {
        self.spec_grouped(input)
    }

    open spec fn spec_err(&self, input: Seq<Metric>, e: MetricQueryError) -> bool {
        ||| (input.len() == 0 && e is EmptyMetricStream)
        ||| (input.len() > 0 && !self.spec_all_valid(input) && self.time_grouping.spec_rejects_with(
            e,
        ))
    }

    fn apply(&self, metrics: &[Metric]) -> (r: MetricQueryResult<Vec<Metric>>) {
        if metrics.len() == 0 {
            return Err(MetricQueryError::EmptyMetricStream);
        }
        let ghost full = metrics@;
        // resolve each metric's bucket, aborting on the first rejected
        // timestamp
        let mut bucket_of: Vec<i64> = Vec::new();
        let mut i: usize = 0;
        while i < metrics.len()
            invariant
                0 <= i <= full.len(),
                full == metrics@,
                full.len() > 0,
                bucket_of@.len() == i,
                forall|j: int| #![trigger full[j]]
                    0 <= j < i ==> self.time_grouping.spec_valid(full[j].timestamp as int),
                forall|j: int| #![trigger bucket_of@[j]]
                    0 <= j < i ==> bucket_of@[j] as int == self.time_grouping.spec_bucket(
                        full[j].timestamp as int,
                    ),
            decreases full.len() - i,
        {
            match self.time_grouping.get_group_timestamp(metrics[i].timestamp) {
                Ok(b) => {
                    bucket_of.push(b);
                },
                Err(e) => {
                    proof {
                        assert(!self.time_grouping.spec_valid(full[i as int].timestamp as int));
                    }
                    return Err(e);
                },
            }
            i = i + 1;
        }
        // collect the distinct buckets in order of first occurrence
        let mut keys: Vec<i64> = Vec::new();
        let mut i: usize = 0;
        proof {
            assert(full.take(0) =~= Seq::<Metric>::empty());
        }
        while i < metrics.len()
            invariant
                0 <= i <= full.len(),
                full == metrics@,
                full.len() > 0,
                bucket_of@.len() == full.len(),
                forall|j: int| #![trigger full[j]]
                    0 <= j < full.len() ==> self.time_grouping.spec_valid(
                        full[j].timestamp as int,
                    ),
                forall|j: int| #![trigger bucket_of@[j]]
                    0 <= j < full.len() ==> bucket_of@[j] as int == self.time_grouping.spec_bucket(
                        full[j].timestamp as int,
                    ),
                keys@.len() == self.spec_buckets(full.take(i as int)).len(),
                forall|x: int| #![trigger keys@[x]]
                    0 <= x < keys@.len() ==> keys@[x] as int == self.spec_buckets(
                        full.take(i as int),
                    )[x],
            decreases full.len() - i,
        {
            let b = bucket_of[i];
            let ghost pre = full.take(i as int);
            let ghost post = full.take(i as int + 1);
            proof {
                assert(post.drop_last() =~= pre);
                assert(post.last() == full[i as int]);
            }
            let mut found = false;
            let mut k: usize = 0;
            while k < keys.len()
                invariant
                    0 <= k <= keys@.len(),
                    found <==> (exists|x: int| 0 <= x < k && keys@[x] == b),
                decreases keys@.len() - k,
            {
                if keys[k] == b {
                    found = true;
                    proof {
                        assert(keys@[k as int] == b);
                    }
                }
                k = k + 1;
            }
            proof {
                let rest = self.spec_buckets(pre);
                if found {
                    let x = choose|x: int| 0 <= x < keys@.len() && keys@[x] == b;
                    assert(rest[x] == b as int);
                    assert(rest.contains(b as int));
                } else {
                    if rest.contains(b as int) {
                        let x = choose|x: int| 0 <= x < rest.len() && rest[x] == b as int;
                        assert(keys@[x] as int == b as int);
                        assert(false);
                    }
                }
            }
            if !found {
                keys.push(b);
            }
            proof {
                let rest = self.spec_buckets(pre);
                assert(self.spec_buckets(post) == if rest.contains(b as int) {
                    rest
                } else {
                    rest.push(b as int)
                });
            }
            i = i + 1;
        }
        proof {
            assert(full.take(full.len() as int) =~= full);
        }
        let ghost buckets = self.spec_buckets(full);
        // aggregate each bucket's values independently
        let mut result: Vec<Metric> = Vec::new();
        let mut k: usize = 0;
        while k < keys.len()
            invariant
                0 <= k <= keys@.len(),
                full == metrics@,
                full.len() > 0,
                bucket_of@.len() == full.len(),
                forall|j: int| #![trigger full[j]]
                    0 <= j < full.len() ==> self.time_grouping.spec_valid(
                        full[j].timestamp as int,
                    ),
                forall|j: int| #![trigger bucket_of@[j]]
                    0 <= j < full.len() ==> bucket_of@[j] as int == self.time_grouping.spec_bucket(
                        full[j].timestamp as int,
                    ),
                buckets == self.spec_buckets(full),
                keys@.len() == buckets.len(),
                forall|x: int| #![trigger keys@[x]]
                    0 <= x < keys@.len() ==> keys@[x] as int == buckets[x],
                result@.len() == k,
                forall|x: int| #![trigger result@[x]]
                    0 <= x < k ==> result@[x] == self.spec_grouped(full)[x],
            decreases keys@.len() - k,
        {
            let key = keys[k];
            let mut group: Vec<Metric> = Vec::new();
            let mut j: usize = 0;
            proof {
                reveal(Seq::filter);
                assert(full.take(0) =~= Seq::<Metric>::empty());
                assert(self.spec_bucket_values(full.take(0), key as int) =~= Seq::<i64>::empty());
            }
            while j < metrics.len()
                invariant
                    0 <= j <= full.len(),
                    full == metrics@,
                    bucket_of@.len() == full.len(),
                    forall|x: int| #![trigger bucket_of@[x]]
                        0 <= x < full.len() ==> bucket_of@[x] as int
                            == self.time_grouping.spec_bucket(full[x].timestamp as int),
                    values_of(group@) == self.spec_bucket_values(full.take(j as int), key as int),
                    group@.len() == self.spec_bucket_values(full.take(j as int), key as int).len(),
                decreases full.len() - j,
            {
                let ghost pre = full.take(j as int);
                let ghost post = full.take(j as int + 1);
                proof {
                    reveal(Seq::filter);
                    assert(post.drop_last() =~= pre);
                    assert(post.last() == full[j as int]);
                }
                if bucket_of[j] == key {
                    let m_value = metrics[j].value;
                    proof {
                        self.lemma_bucket_values_step(post, key as int);
                        crate::models::metric::lemma_values_of_push(
                            group@,
                            (Metric { value: m_value, timestamp: 0, label: None }),
                        );
                    }
                    group.push(Metric { value: m_value, timestamp: 0, label: None });
                } else {
                    proof {
                        self.lemma_bucket_values_step(post, key as int);
                    }
                }
                j = j + 1;
            }
            proof {
                assert(full.take(full.len() as int) =~= full);
                assert(buckets[k as int] == keys@[k as int] as int);
            }
            let value = match self.aggregation.apply(group.as_slice()) {
                Ok(v) => v,
                Err(e) => {
                    // unreachable: each listed bucket holds at least one
                    // value, and the aggregation succeeds on non-empty input
                    proof {
                        self.lemma_bucket_membership(full, key as int);
                        let jw = choose|jw: int| #![trigger full[jw]]
                            0 <= jw < full.len() && self.time_grouping.spec_bucket(
                                full[jw].timestamp as int,
                            ) == key as int;
                        self.lemma_bucket_values_nonempty(full, jw, key as int);
                        assert(false);
                    }
                    return Err(e);
                },
            };
            proof {
                self.lemma_bucket_membership(full, key as int);
                let jw = choose|jw: int| #![trigger full[jw]]
                    0 <= jw < full.len() && self.time_grouping.spec_bucket(
                        full[jw].timestamp as int,
                    ) == key as int;
                self.lemma_bucket_values_nonempty(full, jw, key as int);
            }
            result.push(Metric { value, timestamp: key, label: None });
            proof {
                assert(result@.last() == self.spec_grouped(full)[k as int]);
                assert(forall|x: int| #![trigger result@[x]]
                    0 <= x < k ==> result@[x] == self.spec_grouped(full)[x]);
            }
            k = k + 1;
        }
        proof {
            assert(result@ =~= self.spec_grouped(full));
        }
        Ok(result)
    }
}

/// One configured pipeline step over the built-in plugin kinds.
pub enum TransformationStep {
    Filter(FilterTransformation<AnyFilter>),
    Aggregate(AggregationTransformation<AnyAggregation>),
    GroupByTime(TimeGroupingTransformation<AnyTimeGrouping, AnyAggregation>),
}

impl TransformationStrategy for TransformationStep {
    open spec fn spec_ok(&self, input: Seq<Metric>) -> bool {
        match self {
            TransformationStep::Filter(t) => t.spec_ok(input),
            TransformationStep::Aggregate(t) => t.spec_ok(input),
            TransformationStep::GroupByTime(t) => t.spec_ok(input),
        }
    }

    open spec fn spec_output(&self, input: Seq<Metric>) -> Seq<Metric> {
        match self {
            TransformationStep::Filter(t) => t.spec_output(input),
            TransformationStep::Aggregate(t) => t.spec_output(input),
            TransformationStep::GroupByTime(t) => t.spec_output(input),
        }
    }

    open spec fn spec_err(&self, input: Seq<Metric>, e: MetricQueryError) -> bool {
        match self {
            TransformationStep::Filter(t) => t.spec_err(input, e),
            TransformationStep::Aggregate(t) => t.spec_err(input, e),
            TransformationStep::GroupByTime(t) => t.spec_err(input, e),
        }
    }

    fn apply(&self, metrics: &[Metric]) -> (r: MetricQueryResult<Vec<Metric>>) {
        match self {
            TransformationStep::Filter(t) => t.apply(metrics),
            TransformationStep::Aggregate(t) => t.apply(metrics),
            TransformationStep::GroupByTime(t) => t.apply(metrics),
        }
    }
}

/// Whether every step of a chain succeeds when the chain is run in order
/// from an input.
pub open spec fn run_ok(steps: Seq<TransformationStep>, input: Seq<Metric>) -> bool
    decreases steps.len(),
{
    if steps.len() == 0 {
        true
    } else {
        steps[0].spec_ok(input) && run_ok(steps.skip(1), steps[0].spec_output(input))
    }
}

/// The final collection after running a chain of steps in order, each
/// step's output feeding the next step.
pub open spec fn run_output(steps: Seq<TransformationStep>, input: Seq<Metric>) -> Seq<Metric>
    recommends
        run_ok(steps, input),
    decreases steps.len(),
{
    if steps.len() == 0 {
        input
    } else {
        run_output(steps.skip(1), steps[0].spec_output(input))
    }
}

/// Whether an error is one that the first failing step of a chain reports.
pub open spec fn run_err(
    steps: Seq<TransformationStep>,
    input: Seq<Metric>,
    e: MetricQueryError,
) -> bool
    decreases steps.len(),
{
    if steps.len() == 0 {
        false
    } else if !steps[0].spec_ok(input) {
        steps[0].spec_err(input, e)
    } else {
        run_err(steps.skip(1), steps[0].spec_output(input), e)
    }
}

/// Sequential composition law: a pipeline introduces no behavior beyond
/// composing its steps in order. Running a chain extended by one more step
/// succeeds exactly when the chain succeeds and the added step succeeds on
/// the chain's result, and it then produces what the added step produces on
/// that result.
pub proof fn lemma_pipeline_is_composition(
    steps: Seq<TransformationStep>,
    last: TransformationStep,
    input: Seq<Metric>,
)
    ensures
        run_ok(steps.push(last), input) <==> (run_ok(steps, input) && last.spec_ok(
            run_output(steps, input),
        )),
        run_ok(steps, input) ==> run_output(steps.push(last), input) == last.spec_output(
            run_output(steps, input),
        ),
    decreases steps.len(),
{
    reveal_with_fuel(run_ok, 3);
    reveal_with_fuel(run_output, 3);
    if steps.len() == 0 {
        assert(steps.push(last)[0] == last);
        assert(steps.push(last).skip(1) =~= Seq::<TransformationStep>::empty());
    } else {
        assert(steps.push(last)[0] == steps[0]);
        assert(steps.push(last).skip(1) =~= steps.skip(1).push(last));
        lemma_pipeline_is_composition(steps.skip(1), last, steps[0].spec_output(input));
    }
}

/// Pipeline for chaining transformations.
///
/// A pipeline owns the original metric collection and an ordered list of
/// steps, and resolves plugin names against its own catalog of built-in
/// plugins: name resolution in one pipeline is invisible to another.
pub struct MetricPipeline {
    metrics: Vec<Metric>,
    strategies: Vec<TransformationStep>,
    registry: PluginRegistry,
}

impl MetricPipeline {
    /// The stored original metric collection.
    pub closed spec fn spec_metrics(&self) -> Seq<Metric> {
        self.metrics@
    }

    /// The configured steps, in execution order.
    pub closed spec fn spec_steps(&self) -> Seq<TransformationStep> {
        self.strategies@
    }

    /// The filters the pipeline resolves names against.
    pub closed spec fn spec_filters(&self) -> Map<Seq<char>, AnyFilter> {
        self.registry.spec_filters()
    }

    /// The aggregations the pipeline resolves names against.
    pub closed spec fn spec_aggregations(&self) -> Map<Seq<char>, AnyAggregation> {
        self.registry.spec_aggregations()
    }

    /// The time groupings the pipeline resolves names against.
    pub closed spec fn spec_time_groupings(&self) -> Map<Seq<char>, AnyTimeGrouping> {
        self.registry.spec_time_groupings()
    }

    /// Create a new pipeline with the given metrics, no steps, and the
    /// built-in plugins available by name.
    pub fn new(metrics: Vec<Metric>) -> (r: MetricPipeline)
        ensures
            r.spec_metrics() == metrics@,
            r.spec_steps() == Seq::<TransformationStep>::empty(),
            crate::plugin_impls::has_builtin_filters(r.spec_filters()),
            crate::plugin_impls::has_builtin_aggregations(r.spec_aggregations()),
            crate::plugin_impls::has_builtin_time_groupings(r.spec_time_groupings()),
    {
        let r = MetricPipeline {
            metrics,
            strategies: Vec::new(),
            registry: crate::plugin_impls::init_registry(),
        };
        proof {
            assert(r.strategies@ =~= Seq::<TransformationStep>::empty());
        }
        r
    }

    /// Append a filter step, resolving the filter kind by name and binding
    /// the given threshold on it. An unknown name is rejected immediately
    /// with `InvalidFilter` and leaves the pipeline unchanged.
    ///
    /// The appended step carries a filter equivalent to the catalog's entry
    /// with the threshold bound on it; equivalent filters accept exactly
    /// the same metrics (see `lemma_filter_equivalent_accepts`).
    pub fn filter(&mut self, filter_type: &str, filter_value: i64) -> (r: MetricQueryResult<()>)
        ensures
            old(self).spec_filters().contains_key(filter_type@) ==> (r is Ok && final(self).spec_steps().len() == old(self).spec_steps().len() + 1 && final(self).spec_steps().take(old(self).spec_steps().len() as int) == old(self).spec_steps() && (
            final(self).spec_steps().last() matches TransformationStep::Filter(t)
                && filter_equivalent(
                t.filter,
                old(self).spec_filters()[filter_type@].spec_with_threshold(filter_value),
            ))),
            !old(self).spec_filters().contains_key(filter_type@) ==> (r matches Err(e)
                && e is InvalidFilter && *final(self) == *old(self)),
            final(self).spec_metrics() == old(self).spec_metrics(),
            final(self).spec_filters() == old(self).spec_filters(),
            final(self).spec_aggregations() == old(self).spec_aggregations(),
            final(self).spec_time_groupings() == old(self).spec_time_groupings(),
    {
        let f = match self.registry.get_filter(filter_type) {
            Some(fr) => fr.duplicate(),
            None => {
                return Err(
                    MetricQueryError::InvalidFilter { reason: "unknown filter type".to_owned() },
                );
            },
        };
        let configured = f.with_threshold(filter_value);
        self.strategies.push(
            TransformationStep::Filter(FilterTransformation::new(configured)),
        );
        proof {
            assert(self.strategies@.take(old(self).strategies@.len() as int) =~= old(self).strategies@);
        }
        Ok(())
    }

    /// Append an aggregation step, resolving the aggregation by name. An
    /// unknown name is rejected immediately with `InvalidAggregation` and
    /// leaves the pipeline unchanged.
    pub fn aggregate(&mut self, agg_type: &str) -> (r: MetricQueryResult<()>)
        ensures
            old(self).spec_aggregations().contains_key(agg_type@) ==> (r is Ok && final(self).spec_steps() == old(self).spec_steps().push(
                TransformationStep::Aggregate(
                    (AggregationTransformation {
                        aggregation: old(self).spec_aggregations()[agg_type@],
                    }),
                ),
            )),
            !old(self).spec_aggregations().contains_key(agg_type@) ==> (r matches Err(e)
                && e is InvalidAggregation && *final(self) == *old(self)),
            final(self).spec_metrics() == old(self).spec_metrics(),
            final(self).spec_filters() == old(self).spec_filters(),
            final(self).spec_aggregations() == old(self).spec_aggregations(),
            final(self).spec_time_groupings() == old(self).spec_time_groupings(),
    {
        let a = match self.registry.get_aggregation(agg_type) {
            Some(ar) => ar.duplicate(),
            None => {
                return Err(
                    MetricQueryError::InvalidAggregation {
                        reason: "unknown aggregation type".to_owned(),
                    },
                );
            },
        };
        self.strategies.push(
            TransformationStep::Aggregate(AggregationTransformation::new(a)),
        );
        Ok(())
    }

    /// Append a combined time-grouping and aggregation step, resolving both
    /// by name. An unknown time grouping is rejected first with
    /// `InvalidTimeGrouping`, then an unknown aggregation with
    /// `InvalidAggregation`; either rejection leaves the pipeline unchanged.
    pub fn group_by_time(&mut self, time_grouping_type: &str, agg_type: &str) -> (r:
        MetricQueryResult<()>)
        ensures
            old(self).spec_time_groupings().contains_key(time_grouping_type@) && old(self).spec_aggregations().contains_key(agg_type@) ==> (r is Ok && final(self).spec_steps()
                == old(self).spec_steps().push(
                TransformationStep::GroupByTime(
                    (TimeGroupingTransformation {
                        time_grouping: old(self).spec_time_groupings()[time_grouping_type@],
                        aggregation: old(self).spec_aggregations()[agg_type@],
                    }),
                ),
            )),
            !old(self).spec_time_groupings().contains_key(time_grouping_type@) ==> (r matches Err(
                e,
            ) && e is InvalidTimeGrouping && *final(self) == *old(self)),
            old(self).spec_time_groupings().contains_key(time_grouping_type@) && !old(self).spec_aggregations().contains_key(agg_type@) ==> (r matches Err(e)
                && e is InvalidAggregation && *final(self) == *old(self)),
            final(self).spec_metrics() == old(self).spec_metrics(),
            final(self).spec_filters() == old(self).spec_filters(),
            final(self).spec_aggregations() == old(self).spec_aggregations(),
            final(self).spec_time_groupings() == old(self).spec_time_groupings(),
    {
        let g = match self.registry.get_time_grouping(time_grouping_type) {
            Some(gr) => gr.duplicate(),
            None => {
                return Err(
                    MetricQueryError::InvalidTimeGrouping {
                        reason: "unknown time grouping type".to_owned(),
                    },
                );
            },
        };
        let a = match self.registry.get_aggregation(agg_type) {
            Some(ar) => ar.duplicate(),
            None => {
                return Err(
                    MetricQueryError::InvalidAggregation {
                        reason: "unknown aggregation type".to_owned(),
                    },
                );
            },
        };
        self.strategies.push(
            TransformationStep::GroupByTime(TimeGroupingTransformation::new(g, a)),
        );
        Ok(())
    }

    /// Append a label equality filter step, constructed directly. Only the
    /// kind `label_eq` is accepted; any other kind is rejected with
    /// `InvalidFilter`.
    pub fn filter_by_label(&mut self, filter_type: &str, label: String) -> (r: MetricQueryResult<
        (),
    >)
        ensures
            filter_type@ == "label_eq"@ ==> (r is Ok && final(self).spec_steps() == old(self).spec_steps().push(
                TransformationStep::Filter(
                    (FilterTransformation { filter: AnyFilter::LabelEq((LabelFilter { label })) }),
                ),
            )),
            filter_type@ != "label_eq"@ ==> (r matches Err(e) && e is InvalidFilter && *final(self)
                == *old(self)),
            final(self).spec_metrics() == old(self).spec_metrics(),
            final(self).spec_filters() == old(self).spec_filters(),
            final(self).spec_aggregations() == old(self).spec_aggregations(),
            final(self).spec_time_groupings() == old(self).spec_time_groupings(),
    {
        if str_eq(filter_type, "label_eq") {
            self.strategies.push(
                TransformationStep::Filter(
                    FilterTransformation::new(AnyFilter::LabelEq(LabelFilter::new(label))),
                ),
            );
            Ok(())
        } else {
            Err(MetricQueryError::InvalidFilter { reason: "unknown label filter type".to_owned() })
        }
    }

    /// Append a label membership filter step, constructed directly. Only
    /// the kind `label_in` is accepted; any other kind is rejected with
    /// `InvalidFilter`.
    pub fn filter_by_labels(&mut self, filter_type: &str, labels: Vec<String>) -> (r:
        MetricQueryResult<()>)
        ensures
            filter_type@ == "label_in"@ ==> (r is Ok && final(self).spec_steps() == old(self).spec_steps().push(
                TransformationStep::Filter(
                    (FilterTransformation {
                        filter: AnyFilter::LabelIn((LabelInFilter { labels })),
                    }),
                ),
            )),
            filter_type@ != "label_in"@ ==> (r matches Err(e) && e is InvalidFilter && *final(self)
                == *old(self)),
            final(self).spec_metrics() == old(self).spec_metrics(),
            final(self).spec_filters() == old(self).spec_filters(),
            final(self).spec_aggregations() == old(self).spec_aggregations(),
            final(self).spec_time_groupings() == old(self).spec_time_groupings(),
    {
        if str_eq(filter_type, "label_in") {
            self.strategies.push(
                TransformationStep::Filter(
                    FilterTransformation::new(AnyFilter::LabelIn(LabelInFilter::new(labels))),
                ),
            );
            Ok(())
        } else {
            Err(MetricQueryError::InvalidFilter { reason: "unknown label filter type".to_owned() })
        }
    }

    /// Execute the pipeline and return the result.
    ///
    /// Each call restarts from the originally stored collection: with no
    /// steps the result is a copy of it; otherwise each step's output feeds
    /// the next step, and the first failing step aborts the execution with
    /// its error, no partial result surfacing.
    pub fn execute(&self) -> (r: MetricQueryResult<Vec<Metric>>)
        ensures
            run_ok(self.spec_steps(), self.spec_metrics()) ==> (r matches Ok(v) && v@ == run_output(
                self.spec_steps(),
                self.spec_metrics(),
            )),
            !run_ok(self.spec_steps(), self.spec_metrics()) ==> (r matches Err(e) && run_err(
                self.spec_steps(),
                self.spec_metrics(),
                e,
            )),
    {
        let ghost steps = self.strategies@;
        let ghost input = self.metrics@;
        let mut current = clone_metrics(&self.metrics);
        let mut i: usize = 0;
        proof {
            assert(steps.skip(0) =~= steps);
        }
        while i < self.strategies.len()
            invariant
                0 <= i <= steps.len(),
                steps == self.strategies@,
                input == self.metrics@,
                run_ok(steps, input) <==> run_ok(steps.skip(i as int), current@),
                run_ok(steps, input) ==> run_output(steps, input) == run_output(
                    steps.skip(i as int),
                    current@,
                ),
                forall|e: MetricQueryError| #![auto]
                    run_err(steps.skip(i as int), current@, e) ==> run_err(steps, input, e),
            decreases steps.len() - i,
        {
            proof {
                assert(steps.skip(i as int)[0] == steps[i as int]);
                assert(steps.skip(i as int).skip(1) =~= steps.skip(i as int + 1));
            }
            let step = &self.strategies[i];
            match step.apply(current.as_slice()) {
                Ok(next) => {
                    proof {
                        let cur = current@;
                        assert forall|e: MetricQueryError| #![auto]
                            run_err(steps.skip(i as int + 1), next@, e) implies run_err(
                            steps,
                            input,
                            e,
                        ) by {
                            assert(run_err(steps.skip(i as int), cur, e));
                        }
                    }
                    current = next;
                    i = i + 1;
                },
                Err(e) => {
                    proof {
                        assert(run_err(steps.skip(i as int), current@, e));
                    }
                    return Err(e);
                },
            }
        }
        proof {
            assert(steps.skip(steps.len() as int) =~= Seq::<TransformationStep>::empty());
        }
        Ok(current)
    }
}

} // verus!
