use crate::error::QueryError;
use crate::executor::accumulated;
use crate::executor::CompiledQuery;
use crate::executor::QueryExecutor;
use crate::executor::QueryResult;
use crate::executor::QueryResultView;
use crate::schema::ColumnType;
use crate::sub::installed_types;
use crate::sub::lower_plan;
use crate::sub::plan_fusion;
use crate::sub::Fusion;
use crate::sub::SourcePlan;
use vstd::prelude::*;

verus! {

/// Runs a query over a stream of batches: prepares it once, then takes the
/// result of each batch in the order of arrival.
pub struct QueryEngine {
    executor: QueryExecutor,
}

/// The result so far after the result of one more batch: the first batch
/// starts it, every later batch is accumulated into it.
pub open spec fn absorbed(global: Option<QueryResultView>, batch: QueryResultView) -> Result<
    QueryResultView,
    QueryError,
> {
    match global {
        None => Ok(batch),
        Some(g) => accumulated(g, batch),
    }
}

/// The result of a stream whose batches gave `results`, in that order. A
/// stream without batches has no result.
pub open spec fn folded(results: Seq<QueryResultView>) -> Result<QueryResultView, QueryError>
    decreases results.len(),
{
    if results.len() == 0 {
        Err(QueryError::NoDataProcessed)
    } else if results.len() == 1 {
        Ok(results[0])
    } else {
        match folded(results.drop_last()) {
            Err(e) => Err(e),
            Ok(g) => accumulated(g, results.last()),
        }
    }
}

/// The columns that a fused chain of relations reads.
pub open spec fn fusion_columns(f: Fusion) -> Set<u32> {
    match (f.projection, f.filter) {
        (Some(p), Some(c)) => p.columns().union(c.columns()),
        (Some(p), None) => p.columns(),
        (None, Some(c)) => c.columns(),
        (None, None) => Set::empty(),
    }
}

/// The view of a result that may not be there yet.
pub open spec fn view_of(global: Option<QueryResult>) -> Option<QueryResultView> {
    match global {
        Some(g) => Some(g@),
        None => None,
    }
}

impl QueryEngine {
    pub fn new(executor: QueryExecutor) -> (r: Self)
        ensures
            r.executor() == executor,
    {
        Self { executor }
    }

    /// The executor that the engine runs its queries on.
    pub closed spec fn executor(self) -> QueryExecutor {
        self.executor
    }

    /// The executor that the engine runs its queries on.
    pub fn query_executor(&self) -> (r: &QueryExecutor)
        ensures
            *r == self.executor(),
    {
        &self.executor
    }

    /// Prepares a query for a stream: lowers the plan, installs the column
    /// types of the stream, and compiles.
    pub fn prepare(plan: &SourcePlan, schema: &Vec<ColumnType>) -> (r: Result<
        CompiledQuery,
        QueryError,
    >)
        ensures
            match plan_fusion(*plan) {
                Err(e) => r matches Err(found) && found == e,
                Ok(f) => {
                    let types = installed_types(Map::empty(), schema@);
                    let typed = fusion_columns(f).subset_of(types.dom());
                    match r {
                        Ok(query) => {
                            &&& query.wf()
                            &&& query.physical_plan.holds(f)
                            &&& query.physical_plan.column_types@ == types
                        },
                        Err(e) => if !typed {
                            e == QueryError::UnsupportedColumnType
                        } else {
                            e == QueryError::UnsupportedExpression && fusion_columns(f).len() + 1
                                > u32::MAX
                        },
                    }
                },
            },
            plan_fusion(*plan) matches Ok(f) && fusion_columns(f).subset_of(
                installed_types(Map::empty(), schema@).dom(),
            ) && fusion_columns(f).len() + 1 <= u32::MAX ==> r is Ok,
    {
        let mut physical_plan = match lower_plan(plan) {
            Ok(p) => p,
            Err(e) => {
                return Err(e);
            },
        };
        physical_plan.install_column_types(schema);
        QueryExecutor::compile(physical_plan)
    }

    /// Takes the result of one more batch into the result so far. On a
    /// mismatch of kinds the result so far stays as it was.
    pub fn absorb(global: &mut Option<QueryResult>, batch_out: QueryResult) -> (r: Result<
        (),
        QueryError,
    >)
        ensures
            match absorbed(view_of(*old(global)), batch_out@) {
                Ok(next) => r is Ok && view_of(*final(global)) == Some(next),
                Err(e) => r == Err::<(), QueryError>(e) && view_of(*final(global)) == view_of(
                    *old(global),
                ),
            },
    {
        match global {
            Some(g) => g.accumulate(batch_out),
            None => {
                *global = Some(batch_out);
                Ok(())
            },
        }
    }

    /// Ends a stream: the result so far is the result of the query, and a
    /// stream that held no batch has none.
    pub fn finish(global: Option<QueryResult>) -> (r: Result<QueryResult, QueryError>)
        ensures
            match global {
                Some(g) => r == Ok::<QueryResult, QueryError>(g),
                None => r == Err::<QueryResult, QueryError>(QueryError::NoDataProcessed),
            },
    {
        match global {
            Some(g) => Ok(g),
            None => Err(QueryError::NoDataProcessed),
        }
    }
}

/// The views of a list of results.
pub open spec fn views_of(results: Seq<QueryResult>) -> Seq<QueryResultView> {
    results.map_values(|r: QueryResult| r@)
}

/// The lists `parts`, one after the other.
pub open spec fn concatenated<T>(parts: Seq<Seq<T>>) -> Seq<T>
    decreases parts.len(),
{
    if parts.len() == 0 {
        Seq::empty()
    } else {
        concatenated(parts.drop_last()) + parts.last()
    }
}

/// The sum of the lengths of the lists `parts`.
pub open spec fn total_len<T>(parts: Seq<Seq<T>>) -> nat
    decreases parts.len(),
{
    if parts.len() == 0 {
        0
    } else {
        total_len(parts.drop_last()) + parts.last().len()
    }
}

/// The result of a stream of projections has one value for each row of
/// each batch: its length is the sum of the lengths of the batches.
pub proof fn lemma_concatenated_len<T>(parts: Seq<Seq<T>>)
    ensures
        concatenated(parts).len() == total_len(parts),
    decreases parts.len(),
{
    if parts.len() > 0 {
        lemma_concatenated_len(parts.drop_last());
    }
}

/// A failure of a stream at some batch is the failure of the whole stream.
pub proof fn lemma_failure_stays(results: Seq<QueryResultView>, n: int)
    requires
        0 < n <= results.len(),
        folded(results.take(n)) is Err,
    ensures
        folded(results) == folded(results.take(n)),
    decreases results.len() - n,
{
    if n == results.len() {
        assert(results.take(n) =~= results);
    } else {
        let front = results.drop_last();
        assert(front.take(n) =~= results.take(n));
        lemma_failure_stays(front, n);
    }
}

/// The result of a stream of projections is the outputs of its batches one
/// after the other: it depends on the values and their order, and not on
/// where the stream was cut into batches.
pub proof fn lemma_streaming_projection(parts: Seq<Seq<i32>>)
    requires
        parts.len() > 0,
    ensures
        folded(parts.map_values(|p: Seq<i32>| QueryResultView::Projection(p))) == Ok::<
            QueryResultView,
            QueryError,
        >(QueryResultView::Projection(concatenated(parts))),
    decreases parts.len(),
{
    let results = parts.map_values(|p: Seq<i32>| QueryResultView::Projection(p));
    if parts.len() == 1 {
        assert(parts.drop_last().len() == 0);
        assert(concatenated(parts.drop_last()) =~= Seq::<i32>::empty());
        assert(concatenated(parts) =~= parts[0]);
    } else {
        lemma_streaming_projection(parts.drop_last());
        assert(results.drop_last() =~= parts.drop_last().map_values(
            |p: Seq<i32>| QueryResultView::Projection(p),
        ));
    }
}

/// The result of a stream of aggregates holds the partial sums of its
/// batches, one batch after the other, and none of them twice.
pub proof fn lemma_streaming_aggregate(parts: Seq<Seq<u32>>)
    requires
        parts.len() > 0,
    ensures
        folded(parts.map_values(|p: Seq<u32>| QueryResultView::Aggregate(p))) == Ok::<
            QueryResultView,
            QueryError,
        >(QueryResultView::Aggregate(concatenated(parts))),
    decreases parts.len(),
{
    let results = parts.map_values(|p: Seq<u32>| QueryResultView::Aggregate(p));
    if parts.len() == 1 {
        assert(parts.drop_last().len() == 0);
        assert(concatenated(parts.drop_last()) =~= Seq::<u32>::empty());
        assert(concatenated(parts) =~= parts[0]);
    } else {
        lemma_streaming_aggregate(parts.drop_last());
        assert(results.drop_last() =~= parts.drop_last().map_values(
            |p: Seq<u32>| QueryResultView::Aggregate(p),
        ));
    }
}

/// Two streams of projection outputs that hold the same values in the same
/// order have the same result, whatever their batch sizes.
pub proof fn lemma_streaming_equivalence(a: Seq<Seq<i32>>, b: Seq<Seq<i32>>)
    requires
        a.len() > 0,
        b.len() > 0,
        concatenated(a) == concatenated(b),
    ensures
        folded(a.map_values(|p: Seq<i32>| QueryResultView::Projection(p))) == folded(
            b.map_values(|p: Seq<i32>| QueryResultView::Projection(p)),
        ),
{
    lemma_streaming_projection(a);
    lemma_streaming_projection(b);
}

impl QueryEngine {
    /// Folds the results of the batches of a stream, in the order of
    /// arrival, and stops at the first that does not combine.
    pub fn collect(results: Vec<QueryResult>) -> (r: Result<QueryResult, QueryError>)
        ensures
            match folded(views_of(results@)) {
                Ok(view) => r matches Ok(result) && result@ == view,
                Err(e) => r matches Err(found) && found == e,
            },
    {
        let mut rest = results;
        let ghost views = views_of(results@);
        let mut global: Option<QueryResult> = None;
        let mut taken: usize = 0;
        let total = rest.len();
        while taken < total
            invariant
                0 <= taken <= total,
                total == results@.len(),
                views == views_of(results@),
                rest@ == results@.skip(taken as int),
                taken == 0 ==> global is None,
                taken > 0 ==> global is Some && folded(views.take(taken as int)) == Ok::<
                    QueryResultView,
                    QueryError,
                >(global->0@),
            decreases total - taken,
        {
            let batch_out = rest.remove(0);
            proof {
                assert(batch_out == results@[taken as int]);
                assert(rest@ =~= results@.skip(taken + 1));
                assert(views.take(taken + 1).drop_last() =~= views.take(taken as int));
                assert(views.take(taken + 1).last() == batch_out@);
            }
            match Self::absorb(&mut global, batch_out) {
                Ok(()) => {},
                Err(e) => {
                    proof {
                        lemma_failure_stays(views, taken + 1);
                    }
                    return Err(e);
                },
            }
            taken += 1;
        }
        proof {
            assert(views.take(taken as int) =~= views);
        }
        Self::finish(global)
    }
}

} // verus!
