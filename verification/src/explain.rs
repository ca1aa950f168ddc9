//! The integer side of query execution plans: cardinality estimates, the
//! steps each strategy runs with the rows it expects, and the indexes a
//! query uses. Costs are floating-point and are added by the caller.
use vstd::prelude::*;

verus! {

/// How a filtered vector query is executed.
#[derive(Debug, Clone, Copy, PartialEq, Eq, Structural)]
pub enum QueryStrategy {
    /// Graph search without a filter step.
    PlainSearch,
    /// Filter first, then search among the matching points.
    PreFilter,
    /// Search for more candidates, then filter them.
    PostFilter,
    /// Graph search that checks the filter while walking.
    FilteredHNSW,
}

/// Estimated number of points that pass a filter.
#[derive(Debug, Clone, Copy)]
pub struct CardinalityInfo {
    pub min: usize,
    pub expected: usize,
    pub max: usize,
}

/// One step of a plan: its name and the rows it is expected to produce.
#[derive(Debug)]
pub struct PlannedOperation {
    pub name: String,
    pub estimated_rows: usize,
}

/// Builds explanations of query plans for a collection of a given size.
pub struct QueryExplainer {
    total_points: usize,
}

/// Name and rows of the steps of each strategy.
pub open spec fn plan_steps(strategy: QueryStrategy, expected: usize, limit: usize) -> Seq<
    (Seq<char>, int),
> {
    match strategy {
        QueryStrategy::PlainSearch => seq![("HNSW Search"@, limit as int)],
        QueryStrategy::PreFilter => seq![
            ("Apply Filter"@, expected as int),
            ("HNSW Search on Filtered"@, limit as int),
        ],
        QueryStrategy::PostFilter => seq![
            ("HNSW Search"@, limit * 3),
            ("Apply Filter"@, limit as int),
        ],
        QueryStrategy::FilteredHNSW => seq![("Filtered HNSW Search"@, limit as int)],
    }
}

/// Name and rows of planned steps.
pub open spec fn step_texts(ops: Seq<PlannedOperation>) -> Seq<(Seq<char>, int)> {
    ops.map_values(|op: PlannedOperation| (op.name@, op.estimated_rows as int))
}

/// A planned step.
fn step(name: &str, rows: usize) -> (op: PlannedOperation)
    ensures
        op.name@ == name@,
        op.estimated_rows == rows,
{
    PlannedOperation { name: String::from_str(name), estimated_rows: rows }
}

impl QueryExplainer {
    pub fn new(total_points: usize) -> (e: Self)
        ensures
            e.total_points() == total_points,
    {
        QueryExplainer { total_points }
    }

    /// Number of points in the collection.
    #[verifier::when_used_as_spec(spec_total_points)]
    pub fn total_points(&self) -> (n: usize)
        ensures
            n == self.spec_total_points(),
    {
        self.total_points
    }

    pub closed spec fn spec_total_points(&self) -> usize {
        self.total_points
    }

    /// Cardinality around an expected count: half of it at least, twice
    /// it at most.
    pub fn estimate_cardinality(&self, expected: usize) -> (c: CardinalityInfo)
        requires
            expected * 2 <= usize::MAX,
        ensures
            c.expected == expected,
            c.min == expected / 2,
            c.max == expected * 2,
            c.min <= c.expected <= c.max,
    {
        CardinalityInfo { min: expected / 2, expected, max: expected * 2 }
    }

    /// The steps of a strategy, each with the rows it is expected to
    /// produce.
    pub fn planned_operations(
        &self,
        strategy: QueryStrategy,
        cardinality: &CardinalityInfo,
        limit: usize,
    ) -> (ops: Vec<PlannedOperation>)
        requires
            strategy == QueryStrategy::PostFilter ==> limit * 3 <= usize::MAX,
        ensures
            step_texts(ops@) == plan_steps(strategy, cardinality.expected, limit),
    {
        let ops = match strategy {
            QueryStrategy::PlainSearch => vec![step("HNSW Search", limit)],
            QueryStrategy::PreFilter => vec![
                step("Apply Filter", cardinality.expected),
                step("HNSW Search on Filtered", limit),
            ],
            QueryStrategy::PostFilter => vec![
                step("HNSW Search", limit * 3),
                step("Apply Filter", limit),
            ],
            QueryStrategy::FilteredHNSW => vec![step("Filtered HNSW Search", limit)],
        };
        proof {
            assert(step_texts(ops@) =~= plan_steps(strategy, cardinality.expected, limit));
        }
        ops
    }

    /// The indexes a query uses: the field index as well when it filters.
    pub fn indexes_used(&self, has_filter: bool) -> (v: Vec<String>)
        ensures
            has_filter ==> v@.len() == 2 && v@[0]@ == "field_index"@ && v@[1]@ == "hnsw"@,
            !has_filter ==> v@.len() == 1 && v@[0]@ == "hnsw"@,
    {
        if has_filter {
            vec![String::from_str("field_index"), String::from_str("hnsw")]
        } else {
            vec![String::from_str("hnsw")]
        }
    }
}

/// Whatever the strategy, a plan has one or two steps and its last step is
/// expected to return exactly the `limit` rows the query asked for; a
/// pre-filter plan first produces the expected number of filtered points,
/// and a post-filter plan first searches three times as many candidates
/// as the limit.
pub proof fn lemma_plan_ends_with_limit(strategy: QueryStrategy, expected: usize, limit: usize)
    ensures
        1 <= plan_steps(strategy, expected, limit).len() <= 2,
        plan_steps(strategy, expected, limit).last().1 == limit,
        strategy == QueryStrategy::PreFilter ==> plan_steps(strategy, expected, limit)[0].1
            == expected,
        strategy == QueryStrategy::PostFilter ==> plan_steps(strategy, expected, limit)[0].1 == 3
            * limit,
        (strategy == QueryStrategy::PlainSearch || strategy == QueryStrategy::FilteredHNSW)
            ==> plan_steps(strategy, expected, limit).len() == 1,
{
}

} // verus!
