use crate::error::QueryError;
use crate::gpu::Gpu;
use crate::jit::collect_columns;
use crate::jit::generate_shader;
use crate::jit::shader_text;
use crate::ordered::ascending;
use crate::ordered::lemma_ascending_bounded;
use crate::ordered::lemma_ascending_lists;
use crate::ordered::ordered_columns;
use crate::schema::ColumnType;
use crate::sub::PhysicalPlan;
use std::collections::BTreeMap;
use std::collections::BTreeSet;
use vstd::prelude::*;

verus! {

/// Runs queries on one device.
pub struct QueryExecutor {
    gpu: Gpu,
}

/// The result of a query, over one batch or over all batches so far.
#[derive(Debug, PartialEq)]
pub enum QueryResult {
    /// One value per row, in the order in which the rows arrived. A row that
    /// the filter dropped holds the smallest 32-bit integer.
    Projection(Vec<i32>),
    /// The partial sums of the workgroups, each as the bit pattern of a
    /// 32-bit float. The value of the aggregate is their sum.
    Aggregate(Vec<u32>),
}

/// A query result as a mathematical value.
pub ghost enum QueryResultView {
    Projection(Seq<i32>),
    Aggregate(Seq<u32>),
}

impl View for QueryResult {
    type V = QueryResultView;

    open spec fn view(&self) -> QueryResultView {
        match self {
            QueryResult::Projection(values) => QueryResultView::Projection(values@),
            QueryResult::Aggregate(lanes) => QueryResultView::Aggregate(lanes@),
        }
    }
}

/// What comes of adding the result of a batch to the result so far: results
/// of one kind are joined, the batch after what came before; results of
/// different kinds do not combine.
pub open spec fn accumulated(global: QueryResultView, batch: QueryResultView) -> Result<
    QueryResultView,
    QueryError,
> {
    match (global, batch) {
        (QueryResultView::Projection(a), QueryResultView::Projection(b)) => Ok(
            QueryResultView::Projection(a + b),
        ),
        (QueryResultView::Aggregate(a), QueryResultView::Aggregate(b)) => Ok(
            QueryResultView::Aggregate(a + b),
        ),
        _ => Err(QueryError::AccumulationKindMismatch),
    }
}

impl QueryResult {
    /// Adds the result of a batch to this result. On a mismatch of kinds
    /// this result stays as it was.
    pub fn accumulate(&mut self, other: QueryResult) -> (r: Result<(), QueryError>)
        ensures
            match accumulated(old(self)@, other@) {
                Ok(joined) => r is Ok && final(self)@ == joined,
                Err(e) => r == Err::<(), QueryError>(e) && final(self)@ == old(self)@,
            },
    {
        match self {
            QueryResult::Projection(v1) => match other {
                QueryResult::Projection(mut v2) => {
                    v1.append(&mut v2);
                    Ok(())
                },
                QueryResult::Aggregate(_) => Err(QueryError::AccumulationKindMismatch),
            },
            QueryResult::Aggregate(s1) => match other {
                QueryResult::Aggregate(mut s2) => {
                    s1.append(&mut s2);
                    Ok(())
                },
                QueryResult::Projection(_) => Err(QueryError::AccumulationKindMismatch),
            },
        }
    }
}

/// The binding slots of the columns `order`: each column gets its position
/// in the list.
pub open spec fn slots_in_order(order: Seq<u32>) -> Map<u32, u32>
    decreases order.len(),
{
    if order.len() == 0 {
        Map::empty()
    } else {
        slots_in_order(order.drop_last()).insert(order.last(), (order.len() - 1) as u32)
    }
}

/// The binding slots of a set of columns: each column gets its rank in the
/// set, counted from zero by ascending column index.
pub open spec fn binding_slots(used: Set<u32>) -> Map<u32, u32> {
    slots_in_order(ascending(used))
}

/// In the slots of a duplicate-free list every column of the list has its
/// position, and no other column has a slot.
pub proof fn lemma_slots_in_order(order: Seq<u32>)
    requires
        order.no_duplicates(),
        order.len() <= 0x1_0000_0000,
    ensures
        slots_in_order(order).dom() == order.to_set(),
        forall|i: int| 0 <= i < order.len() ==> #[trigger] slots_in_order(order)[order[i]] == i,
    decreases order.len(),
{
    if order.len() == 0 {
        assert(slots_in_order(order).dom() =~= order.to_set());
    } else {
        let front = order.drop_last();
        lemma_slots_in_order(front);
        assert forall|c: u32| slots_in_order(order).dom().contains(c) <==> order.to_set().contains(
            c,
        ) by {
            if front.to_set().contains(c) {
                assert(front.contains(c));
                let i = choose|i: int| 0 <= i < front.len() && front[i] == c;
                assert(order[i] == c);
            }
            if order.to_set().contains(c) {
                assert(order.contains(c));
                let i = choose|i: int| 0 <= i < order.len() && order[i] == c;
                if i < front.len() {
                    assert(front[i] == c);
                    assert(front.contains(c));
                }
            }
        }
        assert(slots_in_order(order).dom() =~= order.to_set());
        assert forall|i: int| 0 <= i < order.len() implies #[trigger] slots_in_order(
            order,
        )[order[i]] == i by {
            if i < front.len() {
                assert(front[i] == order[i]);
                assert(order[i] != order.last());
            }
        }
    }
}

/// The binding slots of a set of columns are a strictly ascending map from
/// the set onto the slots below its size: every column of the set has a
/// slot and no other column has one, a larger column has a larger slot, and
/// the column of rank `i` has slot `i`.
pub proof fn lemma_binding_slots_ascend(used: Set<u32>)
    requires
        used.finite(),
    ensures
        binding_slots(used).dom() == used,
        forall|c: u32| used.contains(c) ==> #[trigger] binding_slots(used)[c] < used.len(),
        forall|c: u32, d: u32|
            used.contains(c) && used.contains(d) && c < d ==> #[trigger] binding_slots(used)[c]
                < #[trigger] binding_slots(used)[d],
        forall|i: int|
            0 <= i < used.len() ==> #[trigger] binding_slots(used)[ascending(used)[i]] == i,
{
    let order = ascending(used);
    lemma_ascending_lists(used);
    lemma_ascending_bounded(order);
    lemma_slots_in_order(order);
    assert forall|c: u32| used.contains(c) implies #[trigger] binding_slots(used)[c]
        < used.len() by {
        assert(order.contains(c));
        let i = choose|i: int| 0 <= i < order.len() && order[i] == c;
        assert(slots_in_order(order)[order[i]] == i);
    }
    assert forall|c: u32, d: u32| used.contains(c) && used.contains(d) && c < d implies (
    #[trigger] binding_slots(used)[c]) < #[trigger] binding_slots(used)[d] by {
        assert(order.contains(c));
        assert(order.contains(d));
        let i = choose|i: int| 0 <= i < order.len() && order[i] == c;
        let j = choose|j: int| 0 <= j < order.len() && order[j] == d;
        assert(slots_in_order(order)[order[i]] == i);
        assert(slots_in_order(order)[order[j]] == j);
        if j < i {
            assert(order[j] < order[i]);
        }
    }
}

fn build_mapping(order: &Vec<u32>) -> (mapping: BTreeMap<u32, u32>)
    requires
        order@.len() <= u32::MAX,
    ensures
        mapping@ == slots_in_order(order@),
{
    let mut mapping: BTreeMap<u32, u32> = BTreeMap::new();
    let mut i: usize = 0;
    while i < order.len()
        invariant
            0 <= i <= order@.len(),
            order@.len() <= u32::MAX,
            mapping@ == slots_in_order(order@.take(i as int)),
        decreases order@.len() - i,
    {
        proof {
            assert(order@.take(i + 1).drop_last() =~= order@.take(i as int));
        }
        mapping.insert(order[i], i as u32);
        i += 1;
    }
    proof {
        assert(order@.take(i as int) =~= order@);
    }
    mapping
}

/// A query that is ready to run: the source of its kernel, the columns it
/// reads, their binding slots, and the plan it was made from.
#[derive(Debug, PartialEq)]
pub struct CompiledQuery {
    /// The source of the kernel.
    pub shader: String,
    pub mapping: BTreeMap<u32, u32>,
    pub used_cols: BTreeSet<u32>,
    pub physical_plan: PhysicalPlan,
}

impl CompiledQuery {
    /// The query reads the columns of its plan, binds each at its rank, and
    /// holds the kernel of its plan for those bindings.
    pub open spec fn wf(self) -> bool {
        &&& self.physical_plan.typed()
        &&& self.used_cols@ == self.physical_plan.columns()
        &&& self.used_cols@.finite()
        &&& self.used_cols@.len() + 1 <= u32::MAX
        &&& self.mapping@ == binding_slots(self.used_cols@)
        &&& self.shader@ == shader_text(self.physical_plan, self.mapping@)
    }
}

/// Compiling is a function of the plan: two compiled queries of one plan
/// read the same columns, bind them to the same slots and hold the same
/// kernel.
pub proof fn lemma_compile_is_deterministic(a: CompiledQuery, b: CompiledQuery)
    requires
        a.wf(),
        b.wf(),
        a.physical_plan == b.physical_plan,
    ensures
        a.used_cols@ == b.used_cols@,
        a.mapping@ == b.mapping@,
        a.shader@ == b.shader@,
{
}

/// The binding map of a compiled query is a strictly ascending injection on
/// the columns that the query reads, and a bijection between them and the
/// slots below their number: the column of rank `slot` has that slot.
pub proof fn lemma_binding_map_ascends(query: CompiledQuery)
    requires
        query.wf(),
    ensures
        query.mapping@.dom() == query.used_cols@,
        forall|c: u32|
            query.used_cols@.contains(c) ==> #[trigger] query.mapping@[c]
                < query.used_cols@.len(),
        forall|c: u32, d: u32|
            query.used_cols@.contains(c) && query.used_cols@.contains(d) && c < d
                ==> #[trigger] query.mapping@[c] < #[trigger] query.mapping@[d],
        forall|c: u32, d: u32|
            query.used_cols@.contains(c) && query.used_cols@.contains(d) && c != d
                ==> #[trigger] query.mapping@[c] != #[trigger] query.mapping@[d],
        forall|slot: int|
            0 <= slot < query.used_cols@.len() ==> query.used_cols@.contains(
                #[trigger] ascending(query.used_cols@)[slot],
            ) && query.mapping@[ascending(query.used_cols@)[slot]] == slot,
{
    let used = query.used_cols@;
    lemma_binding_slots_ascend(used);
    lemma_ascending_lists(used);
    assert forall|slot: int| 0 <= slot < used.len() implies used.contains(
        #[trigger] ascending(used)[slot],
    ) && query.mapping@[ascending(used)[slot]] == slot by {
        assert(ascending(used).contains(ascending(used)[slot]));
        assert(binding_slots(used)[ascending(used)[slot]] == slot);
    }
}

/// The input array of one column in a dispatch.
#[derive(Clone, Copy, PartialEq, Eq, Structural, Debug)]
pub struct InputBinding {
    /// The index of the column in the batch.
    pub column: u32,
    /// The binding slot of the array.
    pub slot: u32,
    /// The scalar type under which the kernel reads the column: the type of
    /// the column in the batch, with 128-bit decimals read as 32-bit floats.
    pub column_type: ColumnType,
}

/// The geometry of one dispatch: what to allocate and how many workgroups
/// to start.
#[derive(Debug, PartialEq)]
pub struct Dispatch {
    pub row_count: u32,
    /// The number of workgroups of 64 threads.
    pub workgroup_count: u32,
    /// The number of values that the kernel writes.
    pub output_elements: u32,
    /// The size in bytes of the output and staging buffers.
    pub output_size: u64,
    /// The input arrays, by ascending slot.
    pub inputs: Vec<InputBinding>,
    pub output_slot: u32,
    pub params_slot: u32,
}

/// The number of workgroups of 64 threads that cover `row_count` rows.
pub open spec fn workgroups(row_count: u32) -> int {
    (row_count + 63) / 64
}

/// The number of values that a kernel writes for a batch: one per workgroup
/// in an aggregate, one per row in a projection.
pub open spec fn output_elements(is_aggregate: bool, row_count: u32) -> int {
    if is_aggregate {
        workgroups(row_count)
    } else {
        row_count as int
    }
}

/// The size in bytes of the output buffer: four bytes per value, and no
/// less than 64.
pub open spec fn output_size(is_aggregate: bool, row_count: u32) -> int {
    if output_elements(is_aggregate, row_count) * 4 > 64 {
        output_elements(is_aggregate, row_count) * 4
    } else {
        64
    }
}

/// Whether a batch with columns of the types `batch_types` holds every
/// column of `used` with a type that a kernel can read: a 32-bit integer,
/// a 32-bit float, or a 128-bit decimal, which is read as a 32-bit float.
pub open spec fn batch_supported(used: Set<u32>, batch_types: Seq<ColumnType>) -> bool {
    forall|c: u32|
        used.contains(c) ==> c < batch_types.len() && (
        #[trigger] batch_types[c as int]).installed().dispatchable()
}

/// The input arrays of a dispatch: the columns `order`, each at its
/// position, with the type under which the kernel reads it.
pub open spec fn input_bindings(order: Seq<u32>, batch_types: Seq<ColumnType>) -> Seq<InputBinding> {
    Seq::new(
        order.len(),
        |k: int|
            InputBinding {
                column: order[k],
                slot: k as u32,
                column_type: batch_types[order[k] as int].installed(),
            },
    )
}

/// The two's complement reading of a 32-bit word.
pub open spec fn as_signed(word: u32) -> i32 {
    if word < 0x8000_0000 {
        word as i32
    } else {
        (word - 0x1_0000_0000) as i32
    }
}

/// What the words that a kernel wrote mean. An aggregate wrote one partial
/// sum per workgroup, a projection one value per row; words after those are
/// padding. Fewer words than that are a failure of the device.
pub open spec fn decoded(words: Seq<u32>, is_aggregate: bool, row_count: u32) -> Result<
    QueryResultView,
    QueryError,
> {
    if words.len() < output_elements(is_aggregate, row_count) {
        Err(QueryError::GpuDispatchFailure)
    } else if is_aggregate {
        Ok(QueryResultView::Aggregate(words.take(workgroups(row_count))))
    } else {
        Ok(
            QueryResultView::Projection(
                Seq::new(row_count as nat, |i: int| as_signed(words[i])),
            ),
        )
    }
}

/// A projection over a batch has one value for each row, in the order of
/// the rows: the value of row `i` is the word that the kernel wrote at `i`.
pub proof fn lemma_projection_keeps_rows(words: Seq<u32>, row_count: u32)
    requires
        words.len() >= row_count,
    ensures
        decoded(words, false, row_count) matches Ok(QueryResultView::Projection(values))
            && values.len() == row_count && forall|i: int|
            0 <= i < row_count ==> values[i] == as_signed(#[trigger] words[i]),
{
}

/// A buffer of the size that a dispatch asks for holds a word for every
/// value that the kernel writes, in either byte order, so reading it gives
/// one value per row of a projection and one partial sum per workgroup of
/// an aggregate.
pub proof fn lemma_output_buffer_suffices(bytes: Seq<u8>, is_aggregate: bool, row_count: u32)
    ensures
        words_low_first(bytes).len() == words_high_first(bytes).len(),
        bytes.len() >= output_size(is_aggregate, row_count) ==> {
            &&& words_low_first(bytes).len() >= output_elements(is_aggregate, row_count)
            &&& decoded(words_low_first(bytes), is_aggregate, row_count) is Ok
            &&& decoded(words_high_first(bytes), is_aggregate, row_count) is Ok
        },
        decoded(words_low_first(bytes), false, row_count) matches Ok(
            QueryResultView::Projection(values),
        ) ==> values.len() == row_count,
        decoded(words_high_first(bytes), false, row_count) matches Ok(
            QueryResultView::Projection(values),
        ) ==> values.len() == row_count,
{
}

/// The word that a kernel leaves for a row that the filter dropped reads as
/// the smallest 32-bit integer.
pub proof fn lemma_sentinel_reads_as_smallest()
    ensures
        as_signed(0x8000_0000) == -2147483648,
{
}

/// Whether `r` is what the words `words` of a batch of `row_count` rows
/// mean.
pub open spec fn reads_as(
    r: Result<QueryResult, QueryError>,
    words: Seq<u32>,
    is_aggregate: bool,
    row_count: u32,
) -> bool {
    match decoded(words, is_aggregate, row_count) {
        Ok(view) => r matches Ok(result) && result@ == view,
        Err(e) => r matches Err(found) && found == e,
    }
}

/// The byte at `i`, or zero after the end.
pub open spec fn byte_at(bytes: Seq<u8>, i: int) -> int {
    if 0 <= i < bytes.len() {
        bytes[i] as int
    } else {
        0
    }
}

/// The bytes read as 32-bit words with the low byte first; a last word
/// that is cut short is filled with zeros.
pub open spec fn words_low_first(bytes: Seq<u8>) -> Seq<u32> {
    Seq::new(
        ((bytes.len() + 3) / 4) as nat,
        |k: int|
            (byte_at(bytes, 4 * k) + 0x100 * byte_at(bytes, 4 * k + 1) + 0x1_0000 * byte_at(
                bytes,
                4 * k + 2,
            ) + 0x100_0000 * byte_at(bytes, 4 * k + 3)) as u32,
    )
}

/// The bytes read as 32-bit words with the high byte first; a last word
/// that is cut short is filled with zeros.
pub open spec fn words_high_first(bytes: Seq<u8>) -> Seq<u32> {
    Seq::new(
        ((bytes.len() + 3) / 4) as nat,
        |k: int|
            (0x100_0000 * byte_at(bytes, 4 * k) + 0x1_0000 * byte_at(bytes, 4 * k + 1) + 0x100
                * byte_at(bytes, 4 * k + 2) + byte_at(bytes, 4 * k + 3)) as u32,
    )
}

/// Calls `bytemuck::pod_collect_to_vec` from bytes to 32-bit words. It
/// copies the bytes into a zeroed vector of as many words as hold them, so
/// each word is four bytes in the byte order of the machine, which is one
/// of the two orders.
#[verifier::external_body]
fn collect_words(bytes: &[u8]) -> (words: Vec<u32>)
    ensures
        words@ == words_low_first(bytes@) || words@ == words_high_first(bytes@),
{
    bytemuck::pod_collect_to_vec::<u8, u32>(bytes)
}

fn word_as_signed(word: u32) -> (r: i32)
    ensures
        r == as_signed(word),
{
    if word < 0x8000_0000 {
        word as i32
    } else {
        (word as i64 - 0x1_0000_0000) as i32
    }
}

fn workgroup_count(row_count: u32) -> (r: u32)
    ensures
        r == workgroups(row_count),
{
    if row_count % 64 == 0 {
        row_count / 64
    } else {
        row_count / 64 + 1
    }
}

impl QueryResult {
    /// Reads the words that a kernel wrote for a batch of `row_count` rows.
    pub fn from_words(words: Vec<u32>, is_aggregate: bool, row_count: u32) -> (r: Result<
        QueryResult,
        QueryError,
    >)
        ensures
            reads_as(r, words@, is_aggregate, row_count),
    {
        let groups = workgroup_count(row_count);
        if is_aggregate {
            if words.len() < groups as usize {
                return Err(QueryError::GpuDispatchFailure);
            }
            let mut lanes = words;
            lanes.truncate(groups as usize);
            assert(lanes@ =~= words@.take(workgroups(row_count)));
            Ok(QueryResult::Aggregate(lanes))
        } else {
            if words.len() < row_count as usize {
                return Err(QueryError::GpuDispatchFailure);
            }
            let mut values: Vec<i32> = Vec::new();
            let mut i: usize = 0;
            while i < row_count as usize
                invariant
                    0 <= i <= row_count,
                    row_count <= words@.len(),
                    values@.len() == i,
                    forall|j: int| 0 <= j < i ==> values@[j] == as_signed(words@[j]),
                decreases row_count - i,
            {
                values.push(word_as_signed(words[i]));
                i += 1;
            }
            assert(values@ =~= Seq::new(row_count as nat, |i: int| as_signed(words@[i])));
            Ok(QueryResult::Projection(values))
        }
    }
}

impl QueryExecutor {
    pub fn new(gpu: Gpu) -> (r: Self)
        ensures
            r.gpu() == gpu,
    {
        Self { gpu }
    }

    /// The device that the executor runs on.
    pub closed spec fn gpu(self) -> Gpu {
        self.gpu
    }

    /// The device that the executor runs on.
    pub fn device(&self) -> (r: &Gpu)
        ensures
            *r == self.gpu(),
    {
        &self.gpu
    }

    /// Makes a plan ready to run: finds the columns it reads, binds each at
    /// its rank, and writes the kernel. A plan that reads a column without
    /// a type is refused, and so is one that reads more columns than there
    /// are binding slots.
    pub fn compile(physical_plan: PhysicalPlan) -> (r: Result<CompiledQuery, QueryError>)
        ensures
            match r {
                Ok(query) => query.wf() && query.physical_plan == physical_plan,
                Err(e) => if !physical_plan.typed() {
                    e == QueryError::UnsupportedColumnType
                } else {
                    e == QueryError::UnsupportedExpression && physical_plan.columns().len() + 1
                        > u32::MAX
                },
            },
                physical_plan.typed() && physical_plan.columns().len() + 1 <= u32::MAX ==> r is Ok,
    {
        let mut used_cols: BTreeSet<u32> = BTreeSet::new();
        collect_columns(&physical_plan.projection, &mut used_cols);
        match &physical_plan.filter {
            Some(f) => {
                collect_columns(f, &mut used_cols);
            },
            None => {},
        }
        assert(used_cols@ =~= physical_plan.columns());
        let order = ordered_columns(&used_cols);
        proof {
            lemma_ascending_lists(used_cols@);
        }
        let mut i: usize = 0;
        while i < order.len()
            invariant
                0 <= i <= order@.len(),
                order@.to_set() == physical_plan.columns(),
                forall|j: int|
                    0 <= j < i ==> physical_plan.column_types@.contains_key(#[trigger] order@[j]),
            decreases order@.len() - i,
        {
            if !physical_plan.column_types.contains_key(&order[i]) {
                proof {
                    assert(order@.contains(order@[i as int]));
                    assert(order@.to_set().contains(order@[i as int]));
                }
                return Err(QueryError::UnsupportedColumnType);
            }
            i += 1;
        }
        proof {
            assert forall|c: u32| physical_plan.columns().contains(c) implies physical_plan.column_types@.dom().contains(c) by {
                assert(order@.contains(c));
            }
        }
        if order.len() >= 0xffff_ffff {
            return Err(QueryError::UnsupportedExpression);
        }
        let mapping = build_mapping(&order);
        proof {
            lemma_binding_slots_ascend(used_cols@);
        }
        let shader = generate_shader(&physical_plan, &mapping);
        Ok(CompiledQuery { shader, mapping, used_cols, physical_plan })
    }

    /// Lays out the dispatch of a query over a batch of `row_count` rows
    /// whose columns have the types `batch_types`. A 128-bit decimal column
    /// is read as a 32-bit float. A batch that lacks a column that the query
    /// reads, or holds it with a type other than 32-bit integer, 32-bit
    /// float or 128-bit decimal, is refused, and so is a query that reads
    /// more columns than there are binding slots.
    pub fn plan_dispatch(
        query: &CompiledQuery,
        row_count: u32,
        batch_types: &Vec<ColumnType>,
    ) -> (r: Result<Dispatch, QueryError>)
        ensures
            match r {
                Ok(d) => {
                    &&& batch_supported(query.used_cols@, batch_types@)
                    &&& query.used_cols@.len() + 1 <= u32::MAX
                    &&& d.row_count == row_count
                    &&& d.workgroup_count == workgroups(row_count)
                    &&& d.output_elements == output_elements(
                        query.physical_plan.is_aggregate,
                        row_count,
                    )
                    &&& d.output_size == output_size(query.physical_plan.is_aggregate, row_count)
                    &&& d.inputs@ == input_bindings(ascending(query.used_cols@), batch_types@)
                    &&& d.output_slot == query.used_cols@.len()
                    &&& d.params_slot == query.used_cols@.len() + 1
                },
                Err(e) => if !batch_supported(query.used_cols@, batch_types@) {
                    e == QueryError::UnsupportedColumnType
                } else {
                    e == QueryError::UnsupportedExpression && query.used_cols@.len() + 1
                        > u32::MAX
                },
            },
    {
        let order = ordered_columns(&query.used_cols);
        proof {
            lemma_ascending_lists(query.used_cols@);
            lemma_ascending_bounded(order@);
        }
        let mut inputs: Vec<InputBinding> = Vec::new();
        let mut k: usize = 0;
        while k < order.len()
            invariant
                0 <= k <= order@.len(),
                order@.len() <= 0x1_0000_0000,
                order@.len() == query.used_cols@.len(),
                order@ == ascending(query.used_cols@),
                order@.to_set() == query.used_cols@,
                inputs@.len() == k,
                forall|j: int|
                    0 <= j < k ==> (#[trigger] order@[j]) < batch_types@.len()
                        && batch_types@[order@[j] as int].installed().dispatchable(),
                forall|j: int|
                    0 <= j < k ==> inputs@[j] == (InputBinding {
                        column: order@[j],
                        slot: j as u32,
                        column_type: batch_types@[order@[j] as int].installed(),
                    }),
            decreases order@.len() - k,
        {
            let column: u32 = order[k];
            proof {
                assert(order@.contains(column));
                assert(order@.to_set().contains(column));
            }
            if column as usize >= batch_types.len() {
                assert(!(column < batch_types@.len() && batch_types@[column as int].installed().dispatchable()));
                return Err(QueryError::UnsupportedColumnType);
            }
            let column_type = batch_types[column as usize].coerce();
            if !column_type.is_dispatchable() {
                assert(!(column < batch_types@.len() && batch_types@[column as int].installed().dispatchable()));
                return Err(QueryError::UnsupportedColumnType);
            }
            inputs.push(InputBinding { column, slot: k as u32, column_type });
            k += 1;
        }
        proof {
            assert forall|c: u32| query.used_cols@.contains(c) implies c < batch_types@.len() && (
            #[trigger] batch_types@[c as int]).installed().dispatchable() by {
                assert(order@.contains(c));
                let j = choose|j: int| 0 <= j < order@.len() && order@[j] == c;
                assert(order@[j] < batch_types@.len());
            }
            assert(inputs@ =~= input_bindings(order@, batch_types@));
        }
        if order.len() >= 0xffff_ffff {
            return Err(QueryError::UnsupportedExpression);
        }
        let groups = workgroup_count(row_count);
        let elements: u32 = if query.physical_plan.is_aggregate {
            groups
        } else {
            row_count
        };
        let wanted: u64 = elements as u64 * 4;
        let size: u64 = if wanted > 64 {
            wanted
        } else {
            64
        };
        let output_slot: u32 = order.len() as u32;
        Ok(
            Dispatch {
                row_count,
                workgroup_count: groups,
                output_elements: elements,
                output_size: size,
                inputs,
                output_slot,
                params_slot: output_slot + 1,
            },
        )
    }

    /// Reads the bytes that came back from the device for a batch of
    /// `row_count` rows, as 32-bit words in the byte order of the machine.
    /// A buffer of the size that the dispatch asked for is always enough,
    /// and the result holds one value per row of a projection, one partial
    /// sum per workgroup of an aggregate, whatever padding the buffer has.
    pub fn decode_output(query: &CompiledQuery, row_count: u32, bytes: &[u8]) -> (r: Result<
        QueryResult,
        QueryError,
    >)
        ensures
            reads_as(r, words_low_first(bytes@), query.physical_plan.is_aggregate, row_count)
                || reads_as(
                r,
                words_high_first(bytes@),
                query.physical_plan.is_aggregate,
                row_count,
            ),
            bytes@.len() >= output_size(query.physical_plan.is_aggregate, row_count) ==> r is Ok,
            r matches Ok(result) ==> match result@ {
                QueryResultView::Projection(values) => !query.physical_plan.is_aggregate
                    && values.len() == row_count,
                QueryResultView::Aggregate(lanes) => query.physical_plan.is_aggregate
                    && lanes.len() == workgroups(row_count),
            },
    {
        let words = collect_words(bytes);
        proof {
            lemma_output_buffer_suffices(bytes@, query.physical_plan.is_aggregate, row_count);
        }
        QueryResult::from_words(words, query.physical_plan.is_aggregate, row_count)
    }
}

} // verus!
