//! The three extension points of the engine (filter, aggregation and time
//! grouping plugins) and the catalog that resolves plugin names.
//!
//! The registry is an explicit context object: every pipeline owns its own
//! catalog instance, so registrations in one pipeline are invisible to
//! another. This takes the place of process-global state on purpose.

use vstd::prelude::*;
use crate::errors::{MetricQueryError, MetricQueryResult};
use crate::models::metric::Metric;
use crate::plugin_impls::{AnyAggregation, AnyFilter, AnyTimeGrouping};

verus! {

/// Compare two string slices by contents.
pub fn str_eq(a: &str, b: &str) -> (r: bool)
    ensures
        r == (a@ == b@),
{
    let sa: String = a.to_owned();
    let sb: String = b.to_owned();
    sa == sb
}

/// A named predicate over a single metric. Applying a filter is pure, total
/// and never fails.
pub trait FilterPlugin: Sized {
    /// The name under which the plugin registers itself.
    spec fn spec_name(&self) -> Seq<char>;

    /// Which metrics the filter accepts.
    spec fn spec_accepts(&self, metric: Metric) -> bool;

    /// Get the name of the filter plugin.
    fn name(&self) -> (r: &str)
        ensures
            r@ == self.spec_name(),
    ;

    /// Apply the filter to a metric.
    fn apply(&self, metric: &Metric) -> (r: bool)
        ensures
            r == self.spec_accepts(*metric),
    ;
}

/// A named reduction of a non-empty metric slice to one value. It fails
/// exactly on empty input, with `EmptyMetricStream`.
pub trait AggregationPlugin: Sized {
    /// The name under which the plugin registers itself.
    spec fn spec_name(&self) -> Seq<char>;

    /// The value the aggregation computes from a non-empty value sequence.
    spec fn spec_value(&self, vals: Seq<i64>) -> i64
        recommends
            vals.len() > 0,
    ;

    /// Get the name of the aggregation plugin.
    fn name(&self) -> (r: &str)
        ensures
            r@ == self.spec_name(),
    ;

    /// Apply the aggregation to a collection of metrics.
    fn apply(&self, metrics: &[Metric]) -> (r: MetricQueryResult<i64>)
        ensures
            metrics@.len() == 0 ==> r == Err::<i64, MetricQueryError>(
                MetricQueryError::EmptyMetricStream,
            ),
            metrics@.len() > 0 ==> (r matches Ok(v) && v == self.spec_value(
                crate::models::metric::values_of(metrics@),
            )),
    ;
}

/// A named truncation of a UTC timestamp to the start of its containing
/// calendar bucket.
pub trait TimeGroupingPlugin: Sized {
    /// The name under which the plugin registers itself.
    spec fn spec_name(&self) -> Seq<char>;

    /// The timestamps the plugin can interpret as UTC calendar instants.
    spec fn spec_valid(&self, timestamp: int) -> bool;

    /// The start of the bucket containing a valid timestamp.
    spec fn spec_bucket(&self, timestamp: int) -> int
        recommends
            self.spec_valid(timestamp),
    ;

    /// Which errors the plugin reports for a timestamp it rejects.
    spec fn spec_rejects_with(&self, e: MetricQueryError) -> bool;

    /// Get the name of the time grouping plugin.
    fn name(&self) -> (r: &str)
        ensures
            r@ == self.spec_name(),
    ;

    /// Get the timestamp for the group that a metric belongs to.
    fn get_group_timestamp(&self, timestamp: i64) -> (r: MetricQueryResult<i64>)
        ensures
            self.spec_valid(timestamp as int) ==> (r matches Ok(v) && v as int
                == self.spec_bucket(timestamp as int)),
            !self.spec_valid(timestamp as int) ==> (r matches Err(e) && self.spec_rejects_with(e)),
    ;
}

/// The mathematical content of an association list: later entries win.
pub open spec fn assoc_map<V>(entries: Seq<(String, V)>) -> Map<Seq<char>, V>
    decreases entries.len(),
{
    if entries.len() == 0 {
        Map::empty()
    } else {
        assoc_map(entries.drop_last()).insert(entries.last().0@, entries.last().1)
    }
}

/// No two entries share a name.
pub open spec fn keys_unique<V>(entries: Seq<(String, V)>) -> bool {
    forall|i: int, j: int|
        0 <= i < j < entries.len() ==> entries[i].0@ != entries[j].0@
}

/// One catalog mapping: plugin name to plugin instance, keys unique,
/// overwrite on duplicate registration.
pub struct PluginTable<V> {
    entries: Vec<(String, V)>,
}

impl<V> View for PluginTable<V> {
    type V = Map<Seq<char>, V>;

    closed spec fn view(&self) -> Map<Seq<char>, V> {
        assoc_map(self.entries@)
    }
}

proof fn lemma_assoc_map_index<V>(entries: Seq<(String, V)>, i: int)
    requires
        keys_unique(entries),
        0 <= i < entries.len(),
    ensures
        assoc_map(entries).contains_key(entries[i].0@),
        assoc_map(entries)[entries[i].0@] == entries[i].1,
    decreases entries.len(),
{
    if i < entries.len() - 1 {
        lemma_assoc_map_index(entries.drop_last(), i);
    }
}

proof fn lemma_assoc_map_absent<V>(entries: Seq<(String, V)>, name: Seq<char>)
    requires
        forall|j: int| 0 <= j < entries.len() ==> entries[j].0@ != name,
    ensures
        !assoc_map(entries).contains_key(name),
    decreases entries.len(),
{
    if entries.len() > 0 {
        lemma_assoc_map_absent(entries.drop_last(), name);
    }
}

proof fn lemma_assoc_map_key_present<V>(entries: Seq<(String, V)>, i: int)
    requires
        0 <= i < entries.len(),
    ensures
        assoc_map(entries).contains_key(entries[i].0@),
    decreases entries.len(),
{
    if i < entries.len() - 1 {
        lemma_assoc_map_key_present(entries.drop_last(), i);
        assert(entries.drop_last()[i] == entries[i]);
    }
}

proof fn lemma_assoc_map_key_of<V>(entries: Seq<(String, V)>, k: Seq<char>)
    requires
        assoc_map(entries).contains_key(k),
    ensures
        exists|i: int| 0 <= i < entries.len() && entries[i].0@ == k,
    decreases entries.len(),
{
    if entries.len() > 0 {
        if k == entries.last().0@ {
            assert(entries[entries.len() - 1].0@ == k);
        } else {
            lemma_assoc_map_key_of(entries.drop_last(), k);
            let i = choose|i: int|
                0 <= i < entries.drop_last().len() && entries.drop_last()[i].0@ == k;
            assert(entries.drop_last()[i] == entries[i]);
            assert(entries[i].0@ == k);
        }
    }
}

proof fn lemma_assoc_map_update<V>(entries: Seq<(String, V)>, i: int, p: (String, V))
    requires
        keys_unique(entries),
        0 <= i < entries.len(),
        entries[i].0@ == p.0@,
    ensures
        keys_unique(entries.update(i, p)),
        assoc_map(entries.update(i, p)) == assoc_map(entries).insert(p.0@, p.1),
    decreases entries.len(),
{
    if i == entries.len() - 1 {
        assert(entries.update(i, p).drop_last() =~= entries.drop_last());
        assert(assoc_map(entries.update(i, p)) =~= assoc_map(entries).insert(p.0@, p.1));
    } else {
        assert(entries.update(i, p).drop_last() =~= entries.drop_last().update(i, p));
        lemma_assoc_map_update(entries.drop_last(), i, p);
        assert(assoc_map(entries.update(i, p)) =~= assoc_map(entries).insert(p.0@, p.1));
    }
}

/// Find the entry holding a name.
fn find_entry<V>(entries: &Vec<(String, V)>, name: &str) -> (r: Option<usize>)
    ensures
        r matches Some(i) ==> i < entries@.len() && entries@[i as int].0@ == name@,
        r is None ==> forall|j: int| 0 <= j < entries@.len() ==> entries@[j].0@ != name@,
{
    let mut i: usize = 0;
    while i < entries.len()
        invariant
            0 <= i <= entries@.len(),
            forall|j: int| 0 <= j < i ==> entries@[j].0@ != name@,
        decreases entries@.len() - i,
    {
        if str_eq(entries[i].0.as_str(), name) {
            return Some(i);
        }
        i = i + 1;
    }
    None
}

impl<V> PluginTable<V> {
    #[verifier::type_invariant]
    spec fn wf(&self) -> bool {
        keys_unique(self.entries@)
    }

    /// Create an empty table.
    pub fn new() -> (r: Self)
        ensures
            r@ == Map::<Seq<char>, V>::empty(),
    {
        PluginTable { entries: Vec::new() }
    }

    /// Register a plugin under a name; a later registration under the same
    /// name replaces the earlier one.
    pub fn register(&mut self, name: String, value: V)
        ensures
            final(self)@ == old(self)@.insert(name@, value),
    {
        proof {
            use_type_invariant(&*self);
        }
        let mut entries: Vec<(String, V)> = Vec::new();
        std::mem::swap(&mut entries, &mut self.entries);
        let ghost entries0 = entries@;
        match find_entry(&entries, name.as_str()) {
            Some(i) => {
                proof {
                    lemma_assoc_map_update(entries0, i as int, (name, value));
                }
                entries[i] = (name, value);
            },
            None => {
                proof {
                    let p = (name, value);
                    assert(entries0.push(p).drop_last() =~= entries0);
                    assert(assoc_map(entries0.push(p)) =~= assoc_map(entries0).insert(p.0@, p.1));
                }
                entries.push((name, value));
            },
        }
        self.entries = entries;
    }

    /// Look a plugin up by name.
    pub fn get(&self, name: &str) -> (r: Option<&V>)
        ensures
            self@.contains_key(name@) ==> (r matches Some(v) && *v == self@[name@]),
            !self@.contains_key(name@) ==> r is None,
    {
        proof {
            use_type_invariant(&*self);
        }
        match find_entry(&self.entries, name) {
            Some(i) => {
                proof {
                    lemma_assoc_map_index(self.entries@, i as int);
                }
                Some(&self.entries[i].1)
            },
            None => {
                proof {
                    lemma_assoc_map_absent(self.entries@, name@);
                }
                None
            },
        }
    }

    /// The registered names, without duplicates.
    pub fn names(&self) -> (r: Vec<String>)
        ensures
            forall|k: Seq<char>| #![auto]
                self@.contains_key(k) ==> (exists|i: int| 0 <= i < r@.len() && r@[i]@ == k),
            forall|i: int| #![trigger r@[i]] 0 <= i < r@.len() ==> self@.contains_key(r@[i]@),
            forall|i: int, j: int| 0 <= i < j < r@.len() ==> r@[i]@ != r@[j]@,
    {
        proof {
            use_type_invariant(&*self);
        }
        let mut r: Vec<String> = Vec::new();
        let mut i: usize = 0;
        while i < self.entries.len()
            invariant
                0 <= i <= self.entries@.len(),
                r@.len() == i,
                forall|j: int| #![auto] 0 <= j < i ==> r@[j]@ == self.entries@[j].0@,
            decreases self.entries@.len() - i,
        {
            r.push(self.entries[i].0.clone());
            i = i + 1;
        }
        proof {
            assert forall|k: Seq<char>| #![auto] self@.contains_key(k) implies (exists|i: int|
                0 <= i < r@.len() && r@[i]@ == k) by {
                lemma_assoc_map_key_of(self.entries@, k);
                let i = choose|i: int|
                    0 <= i < self.entries@.len() && self.entries@[i].0@ == k;
                assert(r@[i]@ == k);
            }
            assert forall|i: int| #![auto] 0 <= i < r@.len() implies self@.contains_key(
                r@[i]@,
            ) by {
                lemma_assoc_map_key_present(self.entries@, i);
            }
        }
        r
    }
}

/// A reference to a registered filter plugin, exposed for host-language
/// introspection.
#[derive(Debug, Clone)]
pub struct PyFilterPluginRef {
    pub name: String,
}

/// A reference to a registered aggregation plugin, exposed for host-language
/// introspection.
#[derive(Debug, Clone)]
pub struct PyAggregationPluginRef {
    pub name: String,
}

/// A reference to a registered time grouping plugin, exposed for
/// host-language introspection.
#[derive(Debug, Clone)]
pub struct PyTimeGroupingPluginRef {
    pub name: String,
}

/// Catalog of named plugin instances, scoped to an execution context.
///
/// Registering a name that already exists overwrites the previous entry.
pub struct PluginRegistry {
    filters: PluginTable<AnyFilter>,
    aggregations: PluginTable<AnyAggregation>,
    time_groupings: PluginTable<AnyTimeGrouping>,
}

impl PluginRegistry {
    /// The filter mapping.
    pub closed spec fn spec_filters(&self) -> Map<Seq<char>, AnyFilter> {
        self.filters@
    }

    /// The aggregation mapping.
    pub closed spec fn spec_aggregations(&self) -> Map<Seq<char>, AnyAggregation> {
        self.aggregations@
    }

    /// The time grouping mapping.
    pub closed spec fn spec_time_groupings(&self) -> Map<Seq<char>, AnyTimeGrouping> {
        self.time_groupings@
    }

    /// Create a new empty registry.
    pub fn new() -> (r: Self)
        ensures
            r.spec_filters() == Map::<Seq<char>, AnyFilter>::empty(),
            r.spec_aggregations() == Map::<Seq<char>, AnyAggregation>::empty(),
            r.spec_time_groupings() == Map::<Seq<char>, AnyTimeGrouping>::empty(),
    {
        PluginRegistry {
            filters: PluginTable::new(),
            aggregations: PluginTable::new(),
            time_groupings: PluginTable::new(),
        }
    }

    /// Register a new filter plugin under its own name.
    pub fn register_filter(&mut self, filter: AnyFilter)
        ensures
            final(self).spec_filters() == old(self).spec_filters().insert(
                filter.spec_name(),
                filter,
            ),
            final(self).spec_aggregations() == old(self).spec_aggregations(),
            final(self).spec_time_groupings() == old(self).spec_time_groupings(),
    {
        let name = filter.name().to_owned();
        self.filters.register(name, filter);
    }

    /// Register a new aggregation plugin under its own name.
    pub fn register_aggregation(&mut self, aggregation: AnyAggregation)
        ensures
            final(self).spec_aggregations() == old(self).spec_aggregations().insert(
                aggregation.spec_name(),
                aggregation,
            ),
            final(self).spec_filters() == old(self).spec_filters(),
            final(self).spec_time_groupings() == old(self).spec_time_groupings(),
    {
        let name = aggregation.name().to_owned();
        self.aggregations.register(name, aggregation);
    }

    /// Register a new time grouping plugin under its own name.
    pub fn register_time_grouping(&mut self, time_grouping: AnyTimeGrouping)
        ensures
            final(self).spec_time_groupings() == old(self).spec_time_groupings().insert(
                time_grouping.spec_name(),
                time_grouping,
            ),
            final(self).spec_filters() == old(self).spec_filters(),
            final(self).spec_aggregations() == old(self).spec_aggregations(),
    {
        let name = time_grouping.name().to_owned();
        self.time_groupings.register(name, time_grouping);
    }

    /// Get a filter plugin by name.
    pub fn get_filter(&self, name: &str) -> (r: Option<&AnyFilter>)
        ensures
            self.spec_filters().contains_key(name@) ==> (r matches Some(f) && *f
                == self.spec_filters()[name@]),
            !self.spec_filters().contains_key(name@) ==> r is None,
    {
        self.filters.get(name)
    }

    /// Get an aggregation plugin by name.
    pub fn get_aggregation(&self, name: &str) -> (r: Option<&AnyAggregation>)
        ensures
            self.spec_aggregations().contains_key(name@) ==> (r matches Some(a) && *a
                == self.spec_aggregations()[name@]),
            !self.spec_aggregations().contains_key(name@) ==> r is None,
    {
        self.aggregations.get(name)
    }

    /// Get a time grouping plugin by name.
    pub fn get_time_grouping(&self, name: &str) -> (r: Option<&AnyTimeGrouping>)
        ensures
            self.spec_time_groupings().contains_key(name@) ==> (r matches Some(g) && *g
                == self.spec_time_groupings()[name@]),
            !self.spec_time_groupings().contains_key(name@) ==> r is None,
    {
        self.time_groupings.get(name)
    }

    /// Get the list of available filter names.
    pub fn get_filter_names(&self) -> (r: Vec<String>)
        ensures
            forall|k: Seq<char>| #![auto]
                self.spec_filters().contains_key(k) ==> (exists|i: int|
                    0 <= i < r@.len() && r@[i]@ == k),
            forall|i: int| #![trigger r@[i]] 0 <= i < r@.len() ==> self.spec_filters().contains_key(r@[i]@),
            forall|i: int, j: int| 0 <= i < j < r@.len() ==> r@[i]@ != r@[j]@,
    {
        self.filters.names()
    }

    /// Get the list of available aggregation names.
    pub fn get_aggregation_names(&self) -> (r: Vec<String>)
        ensures
            forall|k: Seq<char>| #![auto]
                self.spec_aggregations().contains_key(k) ==> (exists|i: int|
                    0 <= i < r@.len() && r@[i]@ == k),
            forall|i: int| #![trigger r@[i]] 0 <= i < r@.len() ==> self.spec_aggregations().contains_key(r@[i]@),
            forall|i: int, j: int| 0 <= i < j < r@.len() ==> r@[i]@ != r@[j]@,
    {
        self.aggregations.names()
    }

    /// Get the list of available time grouping names.
    pub fn get_time_grouping_names(&self) -> (r: Vec<String>)
        ensures
            forall|k: Seq<char>| #![auto]
                self.spec_time_groupings().contains_key(k) ==> (exists|i: int|
                    0 <= i < r@.len() && r@[i]@ == k),
            forall|i: int| #![trigger r@[i]] 0 <= i < r@.len() ==> self.spec_time_groupings().contains_key(r@[i]@),
            forall|i: int, j: int| 0 <= i < j < r@.len() ==> r@[i]@ != r@[j]@,
    {
        self.time_groupings.names()
    }

    /// Get host-language friendly references to all filters.
    pub fn get_py_filters(&self) -> (r: Vec<PyFilterPluginRef>)
        ensures
            forall|k: Seq<char>| #![auto]
                self.spec_filters().contains_key(k) ==> (exists|i: int|
                    0 <= i < r@.len() && r@[i].name@ == k),
            forall|i: int| #![trigger r@[i]] 0 <= i < r@.len() ==> self.spec_filters().contains_key(r@[i].name@),
    {
        let names = self.filters.names();
        let mut r: Vec<PyFilterPluginRef> = Vec::new();
        let mut i: usize = 0;
        while i < names.len()
            invariant
                0 <= i <= names@.len(),
                r@.len() == i,
                forall|j: int| #![auto] 0 <= j < i ==> r@[j].name@ == names@[j]@,
            decreases names@.len() - i,
        {
            r.push(PyFilterPluginRef { name: names[i].clone() });
            i = i + 1;
        }
        proof {
            assert forall|i: int| 0 <= i < r@.len() implies self.spec_filters().contains_key(
                r@[i].name@,
            ) by {
                assert(r@[i].name@ == names@[i]@);
            }
            assert forall|k: Seq<char>| #![auto] self.spec_filters().contains_key(k) implies (
            exists|i: int| 0 <= i < r@.len() && r@[i].name@ == k) by {
                let i = choose|i: int| 0 <= i < names@.len() && names@[i]@ == k;
                assert(r@[i].name@ == k);
            }
        }
        r
    }

    /// Get host-language friendly references to all aggregations.
    pub fn get_py_aggregations(&self) -> (r: Vec<PyAggregationPluginRef>)
        ensures
            forall|k: Seq<char>| #![auto]
                self.spec_aggregations().contains_key(k) ==> (exists|i: int|
                    0 <= i < r@.len() && r@[i].name@ == k),
            forall|i: int| #![trigger r@[i]] 0 <= i < r@.len() ==> self.spec_aggregations().contains_key(r@[i].name@),
    {
        let names = self.aggregations.names();
        let mut r: Vec<PyAggregationPluginRef> = Vec::new();
        let mut i: usize = 0;
        while i < names.len()
            invariant
                0 <= i <= names@.len(),
                r@.len() == i,
                forall|j: int| #![auto] 0 <= j < i ==> r@[j].name@ == names@[j]@,
            decreases names@.len() - i,
        {
            r.push(PyAggregationPluginRef { name: names[i].clone() });
            i = i + 1;
        }
        proof {
            assert forall|i: int| 0 <= i < r@.len() implies self.spec_aggregations().contains_key(
                r@[i].name@,
            ) by {
                assert(r@[i].name@ == names@[i]@);
            }
            assert forall|k: Seq<char>| #![auto] self.spec_aggregations().contains_key(k) implies (
            exists|i: int| 0 <= i < r@.len() && r@[i].name@ == k) by {
                let i = choose|i: int| 0 <= i < names@.len() && names@[i]@ == k;
                assert(r@[i].name@ == k);
            }
        }
        r
    }

    /// Get host-language friendly references to all time groupings.
    pub fn get_py_time_groupings(&self) -> (r: Vec<PyTimeGroupingPluginRef>)
        ensures
            forall|k: Seq<char>| #![auto]
                self.spec_time_groupings().contains_key(k) ==> (exists|i: int|
                    0 <= i < r@.len() && r@[i].name@ == k),
            forall|i: int| #![trigger r@[i]] 0 <= i < r@.len() ==> self.spec_time_groupings().contains_key(r@[i].name@),
    {
        let names = self.time_groupings.names();
        let mut r: Vec<PyTimeGroupingPluginRef> = Vec::new();
        let mut i: usize = 0;
        while i < names.len()
            invariant
                0 <= i <= names@.len(),
                r@.len() == i,
                forall|j: int| #![auto] 0 <= j < i ==> r@[j].name@ == names@[j]@,
            decreases names@.len() - i,
        {
            r.push(PyTimeGroupingPluginRef { name: names[i].clone() });
            i = i + 1;
        }
        proof {
            assert forall|i: int| 0 <= i < r@.len() implies self.spec_time_groupings().contains_key(
                r@[i].name@,
            ) by {
                assert(r@[i].name@ == names@[i]@);
            }
            assert forall|k: Seq<char>| #![auto] self.spec_time_groupings().contains_key(k) implies (
            exists|i: int| 0 <= i < r@.len() && r@[i].name@ == k) by {
                let i = choose|i: int| 0 <= i < names@.len() && names@[i]@ == k;
                assert(r@[i].name@ == k);
            }
        }
        r
    }
}

/// A host-language view of a plugin registry: the names of the registered
/// plugins of each capability.
pub struct TransformationRegistry {
    pub filters: Vec<PyFilterPluginRef>,
    pub aggregations: Vec<PyAggregationPluginRef>,
    pub time_groupings: Vec<PyTimeGroupingPluginRef>,
}

impl TransformationRegistry {
    /// Create an empty view.
    pub fn new() -> (r: Self)
        ensures
            r.filters@.len() == 0,
            r.aggregations@.len() == 0,
            r.time_groupings@.len() == 0,
    {
        TransformationRegistry {
            filters: Vec::new(),
            aggregations: Vec::new(),
            time_groupings: Vec::new(),
        }
    }

    /// Update the references to match the plugins of a registry.
    pub fn refresh(&mut self, registry: &PluginRegistry)
        ensures
            forall|k: Seq<char>| #![auto]
                registry.spec_filters().contains_key(k) ==> (exists|i: int|
                    0 <= i < final(self).filters@.len()
                        && final(self).filters@[i].name@ == k),
            forall|i: int| #![trigger final(self).filters@[i]]
                0 <= i < final(self).filters@.len() ==> registry.spec_filters().contains_key(
                    final(self).filters@[i].name@,
                ),
            forall|k: Seq<char>| #![auto]
                registry.spec_aggregations().contains_key(k) ==> (exists|i: int|
                    0 <= i < final(self).aggregations@.len()
                        && final(self).aggregations@[i].name@ == k),
            forall|i: int| #![trigger final(self).aggregations@[i]]
                0 <= i < final(self).aggregations@.len()
                    ==> registry.spec_aggregations().contains_key(
                    final(self).aggregations@[i].name@,
                ),
            forall|k: Seq<char>| #![auto]
                registry.spec_time_groupings().contains_key(k) ==> (exists|i: int|
                    0 <= i < final(self).time_groupings@.len()
                        && final(self).time_groupings@[i].name@ == k),
            forall|i: int| #![trigger final(self).time_groupings@[i]]
                0 <= i < final(self).time_groupings@.len()
                    ==> registry.spec_time_groupings().contains_key(
                    final(self).time_groupings@[i].name@,
                ),
    {
        self.filters = registry.get_py_filters();
        self.aggregations = registry.get_py_aggregations();
        self.time_groupings = registry.get_py_time_groupings();
        proof {
            assert forall|k: Seq<char>| #![auto]
                registry.spec_filters().contains_key(k) implies (exists|i: int|
                0 <= i < self.filters@.len() && self.filters@[i].name@ == k) by {
                let i = choose|i: int|
                    0 <= i < self.filters@.len() && self.filters@[i].name@ == k;
                assert(self.filters@[i].name@ == k);
            }
            assert forall|k: Seq<char>| #![auto]
                registry.spec_aggregations().contains_key(k) implies (exists|i: int|
                0 <= i < self.aggregations@.len() && self.aggregations@[i].name@ == k) by {
                let i = choose|i: int|
                    0 <= i < self.aggregations@.len() && self.aggregations@[i].name@ == k;
                assert(self.aggregations@[i].name@ == k);
            }
            assert forall|k: Seq<char>| #![auto]
                registry.spec_time_groupings().contains_key(k) implies (exists|i: int|
                0 <= i < self.time_groupings@.len() && self.time_groupings@[i].name@ == k) by {
                let i = choose|i: int|
                    0 <= i < self.time_groupings@.len() && self.time_groupings@[i].name@ == k;
                assert(self.time_groupings@[i].name@ == k);
            }
        }
    }

    /// Check if a filter of this name is listed.
    pub fn has_filter(&self, name: &str) -> (r: bool)
        ensures
            r == (exists|i: int| 0 <= i < self.filters@.len() && self.filters@[i].name@ == name@),
    {
        let mut i: usize = 0;
        while i < self.filters.len()
            invariant
                0 <= i <= self.filters@.len(),
                forall|j: int| 0 <= j < i ==> self.filters@[j].name@ != name@,
            decreases self.filters@.len() - i,
        {
            if str_eq(self.filters[i].name.as_str(), name) {
                return true;
            }
            i = i + 1;
        }
        false
    }

    /// Check if an aggregation of this name is listed.
    pub fn has_aggregation(&self, name: &str) -> (r: bool)
        ensures
            r == (exists|i: int|
                0 <= i < self.aggregations@.len() && self.aggregations@[i].name@ == name@),
    {
        let mut i: usize = 0;
        while i < self.aggregations.len()
            invariant
                0 <= i <= self.aggregations@.len(),
                forall|j: int| 0 <= j < i ==> self.aggregations@[j].name@ != name@,
            decreases self.aggregations@.len() - i,
        {
            if str_eq(self.aggregations[i].name.as_str(), name) {
                return true;
            }
            i = i + 1;
        }
        false
    }

    /// Check if a time grouping of this name is listed.
    pub fn has_time_grouping(&self, name: &str) -> (r: bool)
        ensures
            r == (exists|i: int|
                0 <= i < self.time_groupings@.len() && self.time_groupings@[i].name@ == name@),
    {
        let mut i: usize = 0;
        while i < self.time_groupings.len()
            invariant
                0 <= i <= self.time_groupings@.len(),
                forall|j: int| 0 <= j < i ==> self.time_groupings@[j].name@ != name@,
            decreases self.time_groupings@.len() - i,
        {
            if str_eq(self.time_groupings[i].name.as_str(), name) {
                return true;
            }
            i = i + 1;
        }
        false
    }
}

} // verus!
