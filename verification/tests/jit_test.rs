use std::collections::BTreeMap;
use std::collections::BTreeSet;
use std::collections::HashMap;
use wsql::jit::collect_columns;
use wsql::jit::generate_shader;
use wsql::jit::translate;
use wsql::jit::Expression;
use wsql::jit::LiteralTypes;
use wsql::schema::ColumnType;
use wsql::sub::PhysicalPlan;
use wsql::text::decimal_string;
use wsql::text::signed_decimal_string;

fn col(i: u32) -> Box<Expression> {
    Box::new(Expression::Column(i))
}

fn lit(v: i32) -> Box<Expression> {
    Box::new(Expression::Literal(LiteralTypes::I32(v)))
}

fn float(text: &str) -> Box<Expression> {
    Box::new(Expression::Literal(LiteralTypes::F32(text.to_string())))
}

fn rank_map(cols: &[u32]) -> BTreeMap<u32, u32> {
    let mut m = BTreeMap::new();
    for (i, c) in cols.iter().enumerate() {
        m.insert(*c, i as u32);
    }
    m
}

fn types(entries: &[(u32, ColumnType)]) -> HashMap<u32, ColumnType> {
    let mut m = HashMap::new();
    for (c, t) in entries {
        m.insert(*c, *t);
    }
    m
}

#[test]
fn decimal_strings_are_exact() {
    assert_eq!(decimal_string(0), "0");
    assert_eq!(decimal_string(7), "7");
    assert_eq!(decimal_string(10), "10");
    assert_eq!(decimal_string(4294967295), "4294967295");
    assert_eq!(decimal_string(u64::MAX), u64::MAX.to_string());
    assert_eq!(signed_decimal_string(0), "0");
    assert_eq!(signed_decimal_string(-1), "-1");
    assert_eq!(signed_decimal_string(12), "12");
    assert_eq!(signed_decimal_string(i32::MAX), "2147483647");
    assert_eq!(signed_decimal_string(i32::MIN), "-2147483648");
}

#[test]
fn collect_columns_gathers_every_column_once() {
    let expr = Expression::And(
        Box::new(Expression::GreaterThan(col(7), lit(1))),
        Box::new(Expression::Or(
            Box::new(Expression::Equal(col(2), col(7))),
            Box::new(Expression::LessThan(col(0), float("1.5"))),
        )),
    );
    let mut cols = BTreeSet::new();
    cols.insert(9);
    collect_columns(&expr, &mut cols);
    assert_eq!(cols.into_iter().collect::<Vec<u32>>(), vec![0, 2, 7, 9]);
}

#[test]
fn collect_columns_of_a_literal_adds_nothing() {
    let mut cols = BTreeSet::new();
    collect_columns(&Expression::Literal(LiteralTypes::Date(3)), &mut cols);
    assert!(cols.is_empty());
}

#[test]
fn translate_writes_parenthesised_infix() {
    // ((id + 2) * 5) - 7
    let query = Expression::Subtract(
        Box::new(Expression::Multiply(
            Box::new(Expression::Add(col(0), lit(2))),
            lit(5),
        )),
        lit(7),
    );
    let text = translate(
        &query,
        &rank_map(&[0]),
        &types(&[(0, ColumnType::Int32)]),
        false,
    );
    assert_eq!(text, "(((in_col_0[idx] + 2i) * 5i) - 7i)");
}

#[test]
fn translate_writes_each_operator() {
    let m = rank_map(&[3, 8]);
    let t = types(&[(3, ColumnType::Float32), (8, ColumnType::Float32)]);
    let cases: Vec<(Expression, &str)> = vec![
        (Expression::Add(col(3), col(8)), "(in_col_0[idx] + in_col_1[idx])"),
        (Expression::Subtract(col(3), col(8)), "(in_col_0[idx] - in_col_1[idx])"),
        (Expression::Multiply(col(3), col(8)), "(in_col_0[idx] * in_col_1[idx])"),
        (Expression::GreaterThan(col(8), col(3)), "(in_col_1[idx] > in_col_0[idx])"),
        (Expression::LessThan(col(3), col(8)), "(in_col_0[idx] < in_col_1[idx])"),
        (Expression::Equal(col(3), col(8)), "(in_col_0[idx] == in_col_1[idx])"),
        (Expression::And(col(3), col(8)), "(in_col_0[idx] && in_col_1[idx])"),
        (Expression::Or(col(3), col(8)), "(in_col_0[idx] || in_col_1[idx])"),
    ];
    for (expr, expected) in cases {
        assert_eq!(translate(&expr, &m, &t, false), expected);
        assert_eq!(translate(&expr, &m, &t, true), expected);
    }
}

#[test]
fn translate_writes_literals_with_their_suffix() {
    let m = BTreeMap::new();
    let t = HashMap::new();
    assert_eq!(translate(&lit(-12), &m, &t, false), "-12i");
    assert_eq!(
        translate(&Expression::Literal(LiteralTypes::Date(9131)), &m, &t, false),
        "9131i"
    );
    assert_eq!(translate(&float("10.5"), &m, &t, true), "10.5f");
    assert_eq!(translate(&lit(i32::MIN), &m, &t, false), "-2147483648i");
}

#[test]
fn translate_converts_integer_columns_in_an_aggregate() {
    let m = rank_map(&[1, 4]);
    let t = types(&[(1, ColumnType::Int32), (4, ColumnType::Float32)]);
    let expr = Expression::Multiply(col(1), col(4));
    assert_eq!(
        translate(&expr, &m, &t, true),
        "(f32(in_col_0[idx]) * in_col_1[idx])"
    );
    assert_eq!(
        translate(&expr, &m, &t, false),
        "(in_col_0[idx] * in_col_1[idx])"
    );
    let wide = types(&[(1, ColumnType::UInt64), (4, ColumnType::Decimal128)]);
    assert_eq!(
        translate(&expr, &m, &wide, true),
        "(f32(in_col_0[idx]) * in_col_1[idx])"
    );
}

fn projection_source(bindings: &str, logic: &str, condition: &str) -> String {
    let mut s = String::new();
    s.push_str("\n        struct QueryParams {\n            row_count: u32,\n        }\n\n        ");
    s.push_str(bindings);
    s.push_str("\n        ");
    s.push_str("\n\n        @compute @workgroup_size(64)\n        fn main(\n");
    s.push_str("            @builtin(global_invocation_id) global_id: vec3<u32>,\n");
    s.push_str("            @builtin(local_invocation_id) local_id: vec3<u32>,\n");
    s.push_str("            @builtin(workgroup_id) group_id: vec3<u32>\n        ) {\n");
    s.push_str("            let idx = global_id.x;\n            let l_idx = local_id.x;\n\n");
    s.push_str("            var val: i32 = bitcast<i32>(0x80000000u);\n\n");
    s.push_str("            if (idx < params.row_count) {\n                if (");
    s.push_str(condition);
    s.push_str(") {\n                    val = ");
    s.push_str(logic);
    s.push_str(";\n                }\n            }\n\n            ");
    s.push_str("if (idx < params.row_count) { out_col[idx] = val; }");
    s.push_str("\n        }\n    ");
    s
}

#[test]
fn generate_shader_writes_a_projection_kernel() {
    let plan = PhysicalPlan {
        projection: Expression::Add(col(2), col(5)),
        filter: Some(Expression::GreaterThan(col(5), float("0.5"))),
        is_aggregate: false,
        column_types: types(&[(2, ColumnType::Int32), (5, ColumnType::Float32)]),
    };
    let source = generate_shader(&plan, &rank_map(&[2, 5]));
    let bindings = "@group(0) @binding(0) var<storage, read> in_col_0: array<i32>;\n\
                    @group(0) @binding(1) var<storage, read> in_col_1: array<f32>;\n\
                    @group(0) @binding(2) var<storage, read_write> out_col: array<i32>;\n\
                    @group(0) @binding(3) var<storage, read> params: QueryParams;\n";
    assert_eq!(
        source,
        projection_source(
            bindings,
            "(in_col_0[idx] + in_col_1[idx])",
            "(in_col_1[idx] > 0.5f)"
        )
    );
}

#[test]
fn generate_shader_without_filter_computes_every_row() {
    let plan = PhysicalPlan {
        projection: Expression::Column(0),
        filter: None,
        is_aggregate: false,
        column_types: types(&[(0, ColumnType::Int32)]),
    };
    let source = generate_shader(&plan, &rank_map(&[0]));
    let bindings = "@group(0) @binding(0) var<storage, read> in_col_0: array<i32>;\n\
                    @group(0) @binding(1) var<storage, read_write> out_col: array<i32>;\n\
                    @group(0) @binding(2) var<storage, read> params: QueryParams;\n";
    assert_eq!(source, projection_source(bindings, "in_col_0[idx]", "true"));
}

#[test]
fn generate_shader_writes_an_aggregate_kernel() {
    let plan = PhysicalPlan {
        projection: Expression::Multiply(col(0), col(1)),
        filter: None,
        is_aggregate: true,
        column_types: types(&[(0, ColumnType::Float32), (1, ColumnType::Int32)]),
    };
    let source = generate_shader(&plan, &rank_map(&[0, 1]));
    assert!(source.contains("@group(0) @binding(0) var<storage, read> in_col_0: array<f32>;\n"));
    assert!(source.contains("@group(0) @binding(1) var<storage, read> in_col_1: array<i32>;\n"));
    assert!(source
        .contains("@group(0) @binding(2) var<storage, read_write> out_col: array<f32>;\n"));
    assert!(source.contains("@group(0) @binding(3) var<storage, read> params: QueryParams;\n"));
    assert!(source.contains("var<workgroup> scratch: array<f32, 64>;"));
    assert!(source.contains("@compute @workgroup_size(64)"));
    assert!(source.contains("var val: f32 = 0.0f;"));
    assert!(source.contains("if (true) {\n                    val = (in_col_0[idx] * f32(in_col_1[idx]));"));
    assert!(source.contains("for (var s = 32u; s > 0u; s >>= 1u) {"));
    assert!(source.contains("scratch[l_idx] += scratch[l_idx + s];"));
    assert!(source.contains("out_col[group_id.x] = scratch[0];"));
    assert_eq!(source.matches("workgroupBarrier();").count(), 2);
}

#[test]
fn generate_shader_declares_inputs_in_column_order() {
    let mut mapping = BTreeMap::new();
    mapping.insert(40, 1);
    mapping.insert(3, 0);
    let plan = PhysicalPlan {
        projection: Expression::Subtract(col(40), col(3)),
        filter: None,
        is_aggregate: false,
        column_types: types(&[(3, ColumnType::Float64), (40, ColumnType::Int32)]),
    };
    let source = generate_shader(&plan, &mapping);
    let first = source.find("in_col_0: array<f32>").unwrap();
    let second = source.find("in_col_1: array<i32>").unwrap();
    assert!(first < second);
    assert!(source.contains("val = (in_col_1[idx] - in_col_0[idx]);"));
}

#[test]
fn column_type_classes() {
    assert!(ColumnType::Int32.is_integer());
    assert!(ColumnType::UInt8.is_integer());
    assert!(!ColumnType::Float32.is_integer());
    assert!(!ColumnType::Decimal128.is_integer());
    assert!(ColumnType::Int64.is_integer());
    assert!(!ColumnType::Float64.is_integer());
    assert!(!ColumnType::Other.is_integer());
    assert_eq!(ColumnType::Decimal128.coerce(), ColumnType::Float32);
    assert_eq!(ColumnType::Int64.coerce(), ColumnType::Int64);
    assert_eq!(ColumnType::Other.coerce(), ColumnType::Other);
    assert!(ColumnType::Int32.is_dispatchable());
    assert!(ColumnType::Float32.is_dispatchable());
    assert!(!ColumnType::Int64.is_dispatchable());
    assert!(!ColumnType::Decimal128.is_dispatchable());
}

#[test]
fn generate_shader_declares_float_arrays_for_every_column_that_is_no_integer() {
    let plan = PhysicalPlan {
        projection: Expression::Add(col(0), Box::new(Expression::Add(col(1), col(2)))),
        filter: Some(Expression::GreaterThan(col(3), col(4))),
        is_aggregate: true,
        column_types: types(&[
            (0, ColumnType::Other),
            (1, ColumnType::Decimal128),
            (2, ColumnType::Float64),
            (3, ColumnType::UInt8),
            (4, ColumnType::Int64),
        ]),
    };
    let source = generate_shader(&plan, &rank_map(&[0, 1, 2, 3, 4]));
    assert!(source.contains("@binding(0) var<storage, read> in_col_0: array<f32>;\n"));
    assert!(source.contains("@binding(1) var<storage, read> in_col_1: array<f32>;\n"));
    assert!(source.contains("@binding(2) var<storage, read> in_col_2: array<f32>;\n"));
    assert!(source.contains("@binding(3) var<storage, read> in_col_3: array<i32>;\n"));
    assert!(source.contains("@binding(4) var<storage, read> in_col_4: array<i32>;\n"));
    assert!(source.contains("if ((f32(in_col_3[idx]) > f32(in_col_4[idx]))) {"));
    assert!(source.contains("val = (in_col_0[idx] + (in_col_1[idx] + in_col_2[idx]));"));
}
