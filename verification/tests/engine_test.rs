use wsql::engine::QueryEngine;
use wsql::error::QueryError;
use wsql::executor::QueryExecutor;
use wsql::executor::QueryResult;
use wsql::schema::ColumnType;
use wsql::sub::ExtensionDeclaration;
use wsql::sub::FieldReference;
use wsql::sub::FunctionArgument;
use wsql::sub::Measure;
use wsql::sub::PlanRelation;
use wsql::sub::Relation;
use wsql::sub::SourceExpression;
use wsql::sub::SourceLiteral;
use wsql::sub::SourcePlan;

fn field(i: i32) -> SourceExpression {
    SourceExpression::Selection(FieldReference::StructField(i))
}

fn lit(v: i32) -> SourceExpression {
    SourceExpression::Literal(SourceLiteral::I32(v))
}

fn call(anchor: u32, left: SourceExpression, right: SourceExpression) -> SourceExpression {
    SourceExpression::ScalarFunction {
        function_reference: anchor,
        arguments: vec![FunctionArgument::Value(left), FunctionArgument::Value(right)],
    }
}

fn plan_of(rel: Relation) -> SourcePlan {
    let function = |anchor: u32, name: &str| ExtensionDeclaration::Function {
        function_anchor: anchor,
        name: name.to_string(),
    };
    SourcePlan {
        extensions: vec![function(1, "add"), function(2, "sub"), function(3, "mul")],
        relations: vec![PlanRelation::Root(Some(rel))],
    }
}

fn bytes_of(values: &[i32]) -> Vec<u8> {
    let mut bytes: Vec<u8> = values.iter().flat_map(|v| v.to_ne_bytes()).collect();
    while bytes.len() < 64 {
        bytes.push(0);
    }
    bytes
}

fn float_bytes(values: &[f32]) -> Vec<u8> {
    let mut bytes: Vec<u8> = values.iter().flat_map(|v| v.to_ne_bytes()).collect();
    while bytes.len() < 64 {
        bytes.push(0);
    }
    bytes
}

fn total(result: &QueryResult) -> f32 {
    match result {
        QueryResult::Aggregate(lanes) => lanes.iter().map(|b| f32::from_bits(*b)).sum(),
        _ => panic!("expected an aggregate"),
    }
}

#[test]
fn collect_of_no_batches_is_no_data() {
    assert_eq!(QueryEngine::collect(vec![]), Err(QueryError::NoDataProcessed));
    assert_eq!(QueryEngine::finish(None), Err(QueryError::NoDataProcessed));
}

#[test]
fn collect_of_one_batch_is_that_batch() {
    assert_eq!(
        QueryEngine::collect(vec![QueryResult::Projection(vec![3, 1])]),
        Ok(QueryResult::Projection(vec![3, 1]))
    );
    assert_eq!(
        QueryEngine::finish(Some(QueryResult::Aggregate(vec![4]))),
        Ok(QueryResult::Aggregate(vec![4]))
    );
}

#[test]
fn collect_keeps_arrival_order() {
    let batches = vec![
        QueryResult::Projection(vec![23, 28]),
        QueryResult::Projection(vec![33, 38]),
        QueryResult::Projection(vec![13, 18]),
        QueryResult::Projection(vec![3, 8]),
    ];
    assert_eq!(
        QueryEngine::collect(batches),
        Ok(QueryResult::Projection(vec![23, 28, 33, 38, 13, 18, 3, 8]))
    );
}

#[test]
fn collect_is_independent_of_batch_sizes() {
    let rows = vec![23, 28, 33, 38, 13, 18, 3, 8];
    let whole = QueryEngine::collect(vec![QueryResult::Projection(rows.clone())]);
    for size in 1..=8 {
        let batches = rows.chunks(size).map(|c| QueryResult::Projection(c.to_vec())).collect();
        assert_eq!(QueryEngine::collect(batches), whole);
    }
    let uneven = vec![
        QueryResult::Projection(vec![]),
        QueryResult::Projection(rows[..5].to_vec()),
        QueryResult::Projection(vec![]),
        QueryResult::Projection(rows[5..].to_vec()),
    ];
    assert_eq!(QueryEngine::collect(uneven), whole);
}

#[test]
fn collect_stops_at_a_mismatch() {
    let batches = vec![
        QueryResult::Projection(vec![1]),
        QueryResult::Aggregate(vec![0]),
        QueryResult::Projection(vec![2]),
    ];
    assert_eq!(QueryEngine::collect(batches), Err(QueryError::AccumulationKindMismatch));
}

#[test]
fn absorb_starts_with_the_first_batch() {
    let mut global = None;
    assert_eq!(QueryEngine::absorb(&mut global, QueryResult::Projection(vec![1])), Ok(()));
    assert_eq!(global, Some(QueryResult::Projection(vec![1])));
    assert_eq!(QueryEngine::absorb(&mut global, QueryResult::Projection(vec![2, 3])), Ok(()));
    assert_eq!(global, Some(QueryResult::Projection(vec![1, 2, 3])));
    assert_eq!(
        QueryEngine::absorb(&mut global, QueryResult::Aggregate(vec![])),
        Err(QueryError::AccumulationKindMismatch)
    );
    assert_eq!(global, Some(QueryResult::Projection(vec![1, 2, 3])));
}

#[test]
fn streaming_aggregate_matches_the_single_batch() {
    // SUM(id) over id = [4, 5, 6, 7, 2, 3, 0, 1], whole and in four batches of two rows
    let plan = plan_of(Relation::Aggregate {
        measures: vec![Measure { arguments: Some(vec![FunctionArgument::Value(field(0))]) }],
        input: Some(Box::new(Relation::Read)),
    });
    let query = QueryEngine::prepare(&plan, &vec![ColumnType::Int32]).unwrap();
    assert!(query.physical_plan.is_aggregate);
    assert!(query.shader.contains("val = f32(in_col_0[idx]);"));

    let single = QueryExecutor::decode_output(&query, 8, &float_bytes(&[28.0])).unwrap();
    let expected = total(&single);
    assert_eq!(expected, 28.0);

    let partial_sums = [9.0f32, 13.0, 5.0, 1.0];
    let mut global = None;
    for sum in partial_sums {
        let d = QueryExecutor::plan_dispatch(&query, 2, &vec![ColumnType::Int32]).unwrap();
        assert_eq!((d.workgroup_count, d.output_elements, d.output_size), (1, 1, 64));
        let out = QueryExecutor::decode_output(&query, 2, &float_bytes(&[sum])).unwrap();
        QueryEngine::absorb(&mut global, out).unwrap();
    }
    let streamed = total(&QueryEngine::finish(global).unwrap());
    assert!((streamed - expected).abs() <= 1e-4 * expected.abs());
}

#[test]
fn prepare_lowers_types_and_compiles() {
    // ((id + 2) * 5) - 7
    let expression = call(2, call(3, call(1, field(0), lit(2)), lit(5)), lit(7));
    let plan = plan_of(Relation::Project {
        expressions: vec![expression],
        input: Some(Box::new(Relation::Read)),
    });
    let query = QueryEngine::prepare(&plan, &vec![ColumnType::Int32, ColumnType::Decimal128])
        .unwrap();
    assert!(query.shader.contains("val = (((in_col_0[idx] + 2i) * 5i) - 7i);"));
    assert_eq!(query.mapping.len(), 1);
    assert_eq!(query.physical_plan.column_types.len(), 2);
    assert_eq!(query.physical_plan.column_types[&1], ColumnType::Float32);

    let d = QueryExecutor::plan_dispatch(&query, 8, &vec![ColumnType::Int32, ColumnType::Decimal128])
        .unwrap();
    assert_eq!((d.workgroup_count, d.output_size), (1, 64));
    let out =
        QueryExecutor::decode_output(&query, 8, &bytes_of(&[23, 28, 33, 38, 13, 18, 3, 8]));
    assert_eq!(out, Ok(QueryResult::Projection(vec![23, 28, 33, 38, 13, 18, 3, 8])));
}

#[test]
fn prepare_reports_the_failure_of_each_step() {
    let unsupported = plan_of(Relation::Other);
    assert_eq!(QueryEngine::prepare(&unsupported, &vec![]), Err(QueryError::UnsupportedRelation));
    let reads_column_3 = plan_of(Relation::Project {
        expressions: vec![field(3)],
        input: Some(Box::new(Relation::Read)),
    });
    assert_eq!(
        QueryEngine::prepare(&reads_column_3, &vec![ColumnType::Int32; 3]),
        Err(QueryError::UnsupportedColumnType)
    );
    assert!(QueryEngine::prepare(&reads_column_3, &vec![ColumnType::Int32; 4]).is_ok());
}

#[test]
fn a_stream_with_a_decimal_column_is_accepted() {
    // SELECT price + 1 over a stream whose column 1 is a 128-bit decimal
    let plan = plan_of(Relation::Project {
        expressions: vec![call(1, field(1), field(0))],
        input: Some(Box::new(Relation::Read)),
    });
    let schema = vec![ColumnType::Float32, ColumnType::Decimal128];
    let query = QueryEngine::prepare(&plan, &schema).unwrap();
    assert_eq!(query.physical_plan.column_types[&1], ColumnType::Float32);
    assert!(query.shader.contains("in_col_1: array<f32>;"));
    let d = QueryExecutor::plan_dispatch(&query, 3, &schema).unwrap();
    assert_eq!(d.inputs.len(), 2);
    assert_eq!(d.inputs[1].column, 1);
    assert_eq!(d.inputs[1].column_type, ColumnType::Float32);
    let mut global = None;
    let out = QueryExecutor::decode_output(&query, 3, &bytes_of(&[5, 6, 7])).unwrap();
    QueryEngine::absorb(&mut global, out).unwrap();
    assert_eq!(QueryEngine::finish(global), Ok(QueryResult::Projection(vec![5, 6, 7])));

    let wide = vec![ColumnType::Float32, ColumnType::Int64];
    let query = QueryEngine::prepare(&plan, &wide).unwrap();
    assert_eq!(
        QueryExecutor::plan_dispatch(&query, 3, &wide),
        Err(QueryError::UnsupportedColumnType)
    );
}
