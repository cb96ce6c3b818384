use crate::ordered::ascending;
use crate::ordered::lemma_ascending_lists;
use crate::ordered::ordered_keys;
use crate::schema::ColumnType;
use crate::sub::PhysicalPlan;
use crate::text::decimal_string;
use crate::text::decimal_text;
use crate::text::signed_decimal_string;
use crate::text::signed_decimal_text;
use std::collections::BTreeMap;
use std::collections::BTreeSet;
use std::collections::HashMap;
use vstd::prelude::*;
use vstd::string::StringExecFns;

verus! {

/// A literal of the expression tree.
#[derive(Debug, PartialEq)]
pub enum LiteralTypes {
    /// A signed 32-bit integer.
    I32(i32),
    /// A 32-bit float, held as the decimal text under which it is written
    /// into a kernel.
    F32(String),
    /// A date, as a signed 32-bit count of days.
    Date(i32),
}

/// A scalar expression over the columns of a batch.
#[derive(Debug, PartialEq)]
pub enum Expression {
    Literal(LiteralTypes),
    Column(u32),
    Add(Box<Expression>, Box<Expression>),
    Subtract(Box<Expression>, Box<Expression>),
    Multiply(Box<Expression>, Box<Expression>),
    GreaterThan(Box<Expression>, Box<Expression>),
    LessThan(Box<Expression>, Box<Expression>),
    Equal(Box<Expression>, Box<Expression>),
    And(Box<Expression>, Box<Expression>),
    Or(Box<Expression>, Box<Expression>),
}

impl LiteralTypes {
    /// The literal as it is written in a kernel: integers and dates with the
    /// integer suffix, floats with the float suffix.
    pub open spec fn text(self) -> Seq<char> {
        match self {
            LiteralTypes::I32(v) => signed_decimal_text(v as int) + "i"@,
            LiteralTypes::Date(v) => signed_decimal_text(v as int) + "i"@,
            LiteralTypes::F32(t) => t@ + "f"@,
        }
    }
}

impl Expression {
    /// The indices of the columns that the expression reads.
    pub open spec fn columns(self) -> Set<u32>
        decreases self,
    {
        match self {
            Expression::Literal(_) => Set::empty(),
            Expression::Column(i) => set![i],
            Expression::Add(l, r) => l.columns().union(r.columns()),
            Expression::Subtract(l, r) => l.columns().union(r.columns()),
            Expression::Multiply(l, r) => l.columns().union(r.columns()),
            Expression::GreaterThan(l, r) => l.columns().union(r.columns()),
            Expression::LessThan(l, r) => l.columns().union(r.columns()),
            Expression::Equal(l, r) => l.columns().union(r.columns()),
            Expression::And(l, r) => l.columns().union(r.columns()),
            Expression::Or(l, r) => l.columns().union(r.columns()),
        }
    }

    /// The expression in the shading language, for a given assignment of
    /// columns to binding slots.
    pub open spec fn text(
        self,
        mapping: Map<u32, u32>,
        column_types: Map<u32, ColumnType>,
        is_aggregate: bool,
    ) -> Seq<char>
        decreases self,
    {
        match self {
            Expression::Literal(v) => v.text(),
            Expression::Column(i) => column_text(
                mapping[i],
                is_aggregate && column_types[i].integer(),
            ),
            Expression::Add(l, r) => binary_text(
                l.text(mapping, column_types, is_aggregate),
                "+"@,
                r.text(mapping, column_types, is_aggregate),
            ),
            Expression::Subtract(l, r) => binary_text(
                l.text(mapping, column_types, is_aggregate),
                "-"@,
                r.text(mapping, column_types, is_aggregate),
            ),
            Expression::Multiply(l, r) => binary_text(
                l.text(mapping, column_types, is_aggregate),
                "*"@,
                r.text(mapping, column_types, is_aggregate),
            ),
            Expression::GreaterThan(l, r) => binary_text(
                l.text(mapping, column_types, is_aggregate),
                ">"@,
                r.text(mapping, column_types, is_aggregate),
            ),
            Expression::LessThan(l, r) => binary_text(
                l.text(mapping, column_types, is_aggregate),
                "<"@,
                r.text(mapping, column_types, is_aggregate),
            ),
            Expression::Equal(l, r) => binary_text(
                l.text(mapping, column_types, is_aggregate),
                "=="@,
                r.text(mapping, column_types, is_aggregate),
            ),
            Expression::And(l, r) => binary_text(
                l.text(mapping, column_types, is_aggregate),
                "&&"@,
                r.text(mapping, column_types, is_aggregate),
            ),
            Expression::Or(l, r) => binary_text(
                l.text(mapping, column_types, is_aggregate),
                "||"@,
                r.text(mapping, column_types, is_aggregate),
            ),
        }
    }
}

/// A read of the current row from the input array at `slot`, converted to
/// float where `as_float` is set.
pub open spec fn column_text(slot: u32, as_float: bool) -> Seq<char> {
    if as_float {
        "f32(in_col_"@ + decimal_text(slot as nat) + "[idx])"@
    } else {
        "in_col_"@ + decimal_text(slot as nat) + "[idx]"@
    }
}

/// Two operands around an infix operator, in parentheses.
pub open spec fn binary_text(left: Seq<char>, operator: Seq<char>, right: Seq<char>) -> Seq<char> {
    "("@ + left + " "@ + operator + " "@ + right + ")"@
}

fn binary_string(left: String, operator: &str, right: String) -> (r: String)
    ensures
        r@ == binary_text(left@, operator@, right@),
{
    let mut s = String::from_str("(");
    s.append(left.as_str());
    s.append(" ");
    s.append(operator);
    s.append(" ");
    s.append(right.as_str());
    s.append(")");
    s
}

/// Adds the columns that `expr` reads to `cols`.
pub fn collect_columns(expr: &Expression, cols: &mut BTreeSet<u32>)
    ensures
        final(cols)@ == old(cols)@.union(expr.columns()),
    decreases *expr,
{
    match expr {
        Expression::Column(i) => {
            cols.insert(*i);
            assert(final(cols)@ =~= old(cols)@.union(expr.columns()));
        },
        Expression::Add(l, r)
        | Expression::Subtract(l, r)
        | Expression::Multiply(l, r)
        | Expression::GreaterThan(l, r)
        | Expression::LessThan(l, r)
        | Expression::Equal(l, r)
        | Expression::And(l, r)
        | Expression::Or(l, r) => {
            collect_columns(l, cols);
            collect_columns(r, cols);
            assert(final(cols)@ =~= old(cols)@.union(expr.columns()));
        },
        Expression::Literal(_) => {
            assert(final(cols)@ =~= old(cols)@.union(expr.columns()));
        },
    }
}

/// Writes `expr` in the shading language. A column becomes a read of its
/// input array at the current row; in an aggregate an integer column is
/// converted to float, so that the reduction runs in float.
pub fn translate(
    expr: &Expression,
    mapping: &BTreeMap<u32, u32>,
    column_types: &HashMap<u32, ColumnType>,
    is_aggregate: bool,
) -> (r: String)
    requires
        expr.columns().subset_of(mapping@.dom()),
        expr.columns().subset_of(column_types@.dom()),
    ensures
        r@ == expr.text(mapping@, column_types@, is_aggregate),
    decreases *expr,
{
    match expr {
        Expression::Literal(val) => match val {
            LiteralTypes::I32(v) => {
                let mut s = signed_decimal_string(*v);
                s.append("i");
                s
            },
            LiteralTypes::Date(v) => {
                let mut s = signed_decimal_string(*v);
                s.append("i");
                s
            },
            LiteralTypes::F32(t) => {
                let mut s = t.clone();
                s.append("f");
                s
            },
        },
        Expression::Column(i) => {
            assert(expr.columns().contains(*i));
            let slot: u32 = match mapping.get(i) {
                Some(slot) => *slot,
                None => 0,
            };
            let as_float = match column_types.get(i) {
                Some(dtype) => is_aggregate && dtype.is_integer(),
                None => false,
            };
            let mut s = if as_float {
                String::from_str("f32(in_col_")
            } else {
                String::from_str("in_col_")
            };
            s.append(decimal_string(slot as u64).as_str());
            if as_float {
                s.append("[idx])");
            } else {
                s.append("[idx]");
            }
            s
        },
        Expression::Add(l, r) => binary_string(
            translate(l, mapping, column_types, is_aggregate),
            "+",
            translate(r, mapping, column_types, is_aggregate),
        ),
        Expression::Subtract(l, r) => binary_string(
            translate(l, mapping, column_types, is_aggregate),
            "-",
            translate(r, mapping, column_types, is_aggregate),
        ),
        Expression::Multiply(l, r) => binary_string(
            translate(l, mapping, column_types, is_aggregate),
            "*",
            translate(r, mapping, column_types, is_aggregate),
        ),
        Expression::GreaterThan(l, r) => binary_string(
            translate(l, mapping, column_types, is_aggregate),
            ">",
            translate(r, mapping, column_types, is_aggregate),
        ),
        Expression::LessThan(l, r) => binary_string(
            translate(l, mapping, column_types, is_aggregate),
            "<",
            translate(r, mapping, column_types, is_aggregate),
        ),
        Expression::Equal(l, r) => binary_string(
            translate(l, mapping, column_types, is_aggregate),
            "==",
            translate(r, mapping, column_types, is_aggregate),
        ),
        Expression::And(l, r) => binary_string(
            translate(l, mapping, column_types, is_aggregate),
            "&&",
            translate(r, mapping, column_types, is_aggregate),
        ),
        Expression::Or(l, r) => binary_string(
            translate(l, mapping, column_types, is_aggregate),
            "||",
            translate(r, mapping, column_types, is_aggregate),
        ),
    }
}

/// The declaration of the input array of one column: an array of 32-bit
/// integers for an integer column, of 32-bit floats for any other.
pub open spec fn input_binding_text(slot: u32, column_type: ColumnType) -> Seq<char> {
    "@group(0) @binding("@ + decimal_text(slot as nat) + ") var<storage, read> in_col_"@
        + decimal_text(slot as nat) + ": array<"@ + (if column_type.integer() {
        "i32"@
    } else {
        "f32"@
    }) + ">;\n"@
}

/// The declarations of the input arrays of the columns `keys`, in that order.
pub open spec fn input_bindings_text(
    keys: Seq<u32>,
    mapping: Map<u32, u32>,
    column_types: Map<u32, ColumnType>,
) -> Seq<char>
    decreases keys.len(),
{
    if keys.len() == 0 {
        Seq::empty()
    } else {
        input_bindings_text(keys.drop_last(), mapping, column_types) + input_binding_text(
            mapping[keys.last()],
            column_types[keys.last()],
        )
    }
}

/// The scalar type of the output array and of the value a thread computes.
pub open spec fn output_type_text(is_aggregate: bool) -> Seq<char> {
    if is_aggregate {
        "f32"@
    } else {
        "i32"@
    }
}

/// The value a thread holds before it has computed anything: zero in an
/// aggregate, the smallest 32-bit integer in a projection.
pub open spec fn sentinel_text(is_aggregate: bool) -> Seq<char> {
    if is_aggregate {
        "0.0f"@
    } else {
        "bitcast<i32>(0x80000000u)"@
    }
}

/// The declaration of the output array, at the slot after the inputs.
pub open spec fn output_binding_text(slot: u32, is_aggregate: bool) -> Seq<char> {
    "@group(0) @binding("@ + decimal_text(slot as nat)
        + ") var<storage, read_write> out_col: array<"@ + output_type_text(is_aggregate)
        + ">;\n"@
}

/// The declaration of the row count, at the slot after the output.
pub open spec fn params_binding_text(slot: u32) -> Seq<char> {
    "@group(0) @binding("@ + decimal_text(slot as nat) + ") var<storage, read> params: QueryParams;\n"@
}

/// All declarations of a kernel: the inputs by ascending column index, then
/// the output, then the row count.
pub open spec fn bindings_text(plan: PhysicalPlan, mapping: Map<u32, u32>) -> Seq<char> {
    input_bindings_text(ascending(mapping.dom()), mapping, plan.column_types@)
        + output_binding_text(mapping.dom().len() as u32, plan.is_aggregate) + params_binding_text(
        (mapping.dom().len() + 1) as u32,
    )
}

/// What a kernel declares in workgroup memory.
pub open spec fn globals_text(is_aggregate: bool) -> Seq<char> {
    if is_aggregate {
        "var<workgroup> scratch: array<f32, 64>;"@
    } else {
        ""@
    }
}

/// How a thread writes its value back. A projection writes one value per
/// row. An aggregate adds the values of a workgroup up in shared memory, by
/// halving strides from 32 down to 1 with a barrier after each step, and
/// its first thread writes the sum of the workgroup.
pub open spec fn write_back_text(is_aggregate: bool) -> Seq<char> {
    if is_aggregate {
        "scratch[l_idx] = val;\n            workgroupBarrier();\n            for (var s = 32u; s > 0u; s >>= 1u) {\n                if (l_idx < s) {\n                    scratch[l_idx] += scratch[l_idx + s];\n                }\n                workgroupBarrier();\n            }\n            if (l_idx == 0u) {\n                out_col[group_id.x] = scratch[0];\n            }"@
    } else {
        "if (idx < params.row_count) { out_col[idx] = val; }"@
    }
}

/// The condition under which a row is computed: the filter, or `true`.
pub open spec fn condition_text(plan: PhysicalPlan, mapping: Map<u32, u32>) -> Seq<char> {
    match plan.filter {
        Some(f) => f.text(mapping, plan.column_types@, plan.is_aggregate),
        None => "true"@,
    }
}

/// The source of the kernel of a plan.
pub open spec fn shader_text(plan: PhysicalPlan, mapping: Map<u32, u32>) -> Seq<char> {
    "\n        struct QueryParams {\n            row_count: u32,\n        }\n\n        "@
        + bindings_text(plan, mapping) + "\n        "@ + globals_text(plan.is_aggregate)
        + "\n\n        @compute @workgroup_size(64)\n        fn main(\n            @builtin(global_invocation_id) global_id: vec3<u32>,\n            @builtin(local_invocation_id) local_id: vec3<u32>,\n            @builtin(workgroup_id) group_id: vec3<u32>\n        ) {\n            let idx = global_id.x;\n            let l_idx = local_id.x;\n\n            var val: "@
        + output_type_text(plan.is_aggregate) + " = "@ + sentinel_text(plan.is_aggregate)
        + ";\n\n            if (idx < params.row_count) {\n                if ("@
        + condition_text(plan, mapping) + ") {\n                    val = "@
        + plan.projection.text(mapping, plan.column_types@, plan.is_aggregate)
        + ";\n                }\n            }\n\n            "@ + write_back_text(
        plan.is_aggregate,
    ) + "\n        }\n    "@
}

fn input_binding_string(slot: u32, column_type: &ColumnType) -> (r: String)
    ensures
        r@ == input_binding_text(slot, *column_type),
{
    let number = decimal_string(slot as u64);
    let mut s = String::from_str("@group(0) @binding(");
    s.append(number.as_str());
    s.append(") var<storage, read> in_col_");
    s.append(number.as_str());
    s.append(": array<");
    if column_type.is_integer() {
        s.append("i32");
    } else {
        s.append("f32");
    }
    s.append(">;\n");
    s
}

fn output_type_str(is_aggregate: bool) -> (r: &'static str)
    ensures
        r@ == output_type_text(is_aggregate),
{
    if is_aggregate {
        "f32"
    } else {
        "i32"
    }
}

fn bindings_string(plan: &PhysicalPlan, mapping: &BTreeMap<u32, u32>) -> (r: String)
    requires
        mapping@.dom().subset_of(plan.column_types@.dom()),
        mapping@.dom().len() + 1 <= u32::MAX,
    ensures
        r@ == bindings_text(*plan, mapping@),
{
    let keys = ordered_keys(mapping);
    proof {
        lemma_ascending_lists(mapping@.dom());
    }
    let mut bindings = String::new();
    let mut i: usize = 0;
    while i < keys.len()
        invariant
            0 <= i <= keys@.len(),
            keys@ == ascending(mapping@.dom()),
            keys@.to_set() == mapping@.dom(),
            mapping@.dom().subset_of(plan.column_types@.dom()),
            bindings@ == input_bindings_text(keys@.take(i as int), mapping@, plan.column_types@),
        decreases keys@.len() - i,
    {
        let key: u32 = keys[i];
        proof {
            assert(keys@.contains(key));
            assert(keys@.to_set().contains(key));
            assert(keys@.take(i + 1).drop_last() =~= keys@.take(i as int));
            assert(keys@.take(i + 1).last() == key);
        }
        let slot: u32 = match mapping.get(&key) {
            Some(slot) => *slot,
            None => 0,
        };
        let line = match plan.column_types.get(&key) {
            Some(column_type) => input_binding_string(slot, column_type),
            None => String::new(),
        };
        bindings.append(line.as_str());
        i += 1;
    }
    proof {
        assert(keys@.take(keys@.len() as int) =~= keys@);
    }
    let out_slot: u32 = keys.len() as u32;
    let mut out_line = String::from_str("@group(0) @binding(");
    out_line.append(decimal_string(out_slot as u64).as_str());
    out_line.append(") var<storage, read_write> out_col: array<");
    out_line.append(output_type_str(plan.is_aggregate));
    out_line.append(">;\n");
    bindings.append(out_line.as_str());
    let mut params_line = String::from_str("@group(0) @binding(");
    params_line.append(decimal_string((out_slot + 1) as u64).as_str());
    params_line.append(") var<storage, read> params: QueryParams;\n");
    bindings.append(params_line.as_str());
    bindings
}

/// Writes the kernel of a plan: one thread per row in workgroups of 64,
/// which computes the projection where the row exists and passes the filter,
/// and keeps the sentinel elsewhere.
pub fn generate_shader(physical_plan: &PhysicalPlan, mapping: &BTreeMap<u32, u32>) -> (r: String)
    requires
        physical_plan.columns().subset_of(mapping@.dom()),
        mapping@.dom().subset_of(physical_plan.column_types@.dom()),
        mapping@.dom().len() + 1 <= u32::MAX,
    ensures
        r@ == shader_text(*physical_plan, mapping@),
{
    let logic = translate(
        &physical_plan.projection,
        mapping,
        &physical_plan.column_types,
        physical_plan.is_aggregate,
    );
    let condition = match &physical_plan.filter {
        Some(f) => translate(f, mapping, &physical_plan.column_types, physical_plan.is_aggregate),
        None => String::from_str("true"),
    };
    let bindings = bindings_string(physical_plan, mapping);
    let mut s = String::from_str(
        "\n        struct QueryParams {\n            row_count: u32,\n        }\n\n        ",
    );
    s.append(bindings.as_str());
    s.append("\n        ");
    if physical_plan.is_aggregate {
        s.append("var<workgroup> scratch: array<f32, 64>;");
    } else {
        s.append("");
    }
    s.append(
        "\n\n        @compute @workgroup_size(64)\n        fn main(\n            @builtin(global_invocation_id) global_id: vec3<u32>,\n            @builtin(local_invocation_id) local_id: vec3<u32>,\n            @builtin(workgroup_id) group_id: vec3<u32>\n        ) {\n            let idx = global_id.x;\n            let l_idx = local_id.x;\n\n            var val: ",
    );
    s.append(output_type_str(physical_plan.is_aggregate));
    s.append(" = ");
    if physical_plan.is_aggregate {
        s.append("0.0f");
    } else {
        s.append("bitcast<i32>(0x80000000u)");
    }
    s.append(";\n\n            if (idx < params.row_count) {\n                if (");
    s.append(condition.as_str());
    s.append(") {\n                    val = ");
    s.append(logic.as_str());
    s.append(";\n                }\n            }\n\n            ");
    if physical_plan.is_aggregate {
        s.append(
            "scratch[l_idx] = val;\n            workgroupBarrier();\n            for (var s = 32u; s > 0u; s >>= 1u) {\n                if (l_idx < s) {\n                    scratch[l_idx] += scratch[l_idx + s];\n                }\n                workgroupBarrier();\n            }\n            if (l_idx == 0u) {\n                out_col[group_id.x] = scratch[0];\n            }",
        );
    } else {
        s.append("if (idx < params.row_count) { out_col[idx] = val; }");
    }
    s.append("\n        }\n    ");
    s
}

} // verus!
