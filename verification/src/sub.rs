use crate::error::QueryError;
use crate::jit::Expression;
use crate::jit::LiteralTypes;
use crate::schema::ColumnType;
use std::collections::HashMap;
use vstd::prelude::*;
use vstd::string::StringExecFns;

verus! {

/// A query after lowering: one projection, at most one filter, and whether
/// the projection is summed over the rows that pass the filter.
#[derive(Debug, PartialEq)]
pub struct PhysicalPlan {
    pub projection: Expression,
    pub filter: Option<Expression>,
    pub is_aggregate: bool,
    /// The scalar type of each column of the input, by column index.
    pub column_types: HashMap<u32, ColumnType>,
}

impl PhysicalPlan {
    /// The columns that the projection or the filter reads.
    pub open spec fn columns(self) -> Set<u32> {
        match self.filter {
            Some(f) => self.projection.columns().union(f.columns()),
            None => self.projection.columns(),
        }
    }

    /// The plan holds what a fused chain of relations found.
    pub open spec fn holds(self, f: Fusion) -> bool {
        &&& Some(self.projection) == f.projection
        &&& self.filter == f.filter
        &&& self.is_aggregate == f.is_aggregate
    }

    /// Every column that the plan reads has a type.
    pub open spec fn typed(self) -> bool {
        self.columns().subset_of(self.column_types@.dom())
    }

    /// Installs the types of the columns of a batch, by position in
    /// `schema`. A 128-bit decimal column is installed as a 32-bit float;
    /// every other type is kept. Positions that a 32-bit column index
    /// cannot name are left out.
    pub fn install_column_types(&mut self, schema: &Vec<ColumnType>)
        ensures
            final(self).projection == old(self).projection,
            final(self).filter == old(self).filter,
            final(self).is_aggregate == old(self).is_aggregate,
            final(self).column_types@ == installed_types(old(self).column_types@, schema@),
    {
        let mut i: usize = 0;
        while i < schema.len() && i <= 0xffff_ffff
            invariant
                0 <= i <= schema@.len(),
                i <= 0x1_0000_0000,
                self.projection == old(self).projection,
                self.filter == old(self).filter,
                self.is_aggregate == old(self).is_aggregate,
                self.column_types@ == installed_types(
                    old(self).column_types@,
                    schema@.take(i as int),
                ),
            decreases schema@.len() - i,
        {
            let installed = schema[i].coerce();
            self.column_types.insert(i as u32, installed);
            assert(self.column_types@ =~= installed_types(
                old(self).column_types@,
                schema@.take(i + 1),
            ));
            i += 1;
        }
        assert(self.column_types@ =~= installed_types(old(self).column_types@, schema@));
    }
}

/// The column types of a plan after the types `schema` of a batch were
/// installed over the types `before`.
pub open spec fn installed_types(before: Map<u32, ColumnType>, schema: Seq<ColumnType>) -> Map<
    u32,
    ColumnType,
> {
    Map::new(
        |c: u32| before.contains_key(c) || c < schema.len(),
        |c: u32|
            if c < schema.len() {
                schema[c as int].installed()
            } else {
                before[c]
            },
    )
}

/// A literal of a decoded plan.
#[derive(Debug, PartialEq)]
pub enum SourceLiteral {
    I32(i32),
    /// A 32-bit float, as its decimal text.
    Fp32(String),
    /// A date, as a count of days.
    Date(i32),
    /// A literal of any other kind.
    Other,
    /// A literal without a value.
    Missing,
}

/// What a selection of a decoded plan refers to.
#[derive(Debug, PartialEq)]
pub enum FieldReference {
    /// A direct reference to the field of the input row at this index.
    StructField(i32),
    /// Any other kind of reference.
    Other,
}

/// An argument of a function of a decoded plan.
#[derive(Debug, PartialEq)]
pub enum FunctionArgument {
    Value(SourceExpression),
    /// An argument that is not a value.
    Other,
    /// An argument without content.
    Missing,
}

/// A scalar expression of a decoded plan.
#[derive(Debug, PartialEq)]
pub enum SourceExpression {
    Literal(SourceLiteral),
    Selection(FieldReference),
    ScalarFunction { function_reference: u32, arguments: Vec<FunctionArgument> },
    /// An expression of any other kind.
    Other,
    /// An expression without content.
    Missing,
}

/// An entry of the extension registry of a decoded plan.
#[derive(Debug, PartialEq)]
pub enum ExtensionDeclaration {
    /// A function, which expressions refer to by its anchor.
    Function { function_anchor: u32, name: String },
    /// Any other declaration.
    Other,
}

/// One measure of an aggregate relation.
#[derive(Debug, PartialEq)]
pub struct Measure {
    /// The arguments of the aggregate function, where the measure names one.
    pub arguments: Option<Vec<FunctionArgument>>,
}

/// A relation of a decoded plan, with the relation that feeds it.
#[derive(Debug, PartialEq)]
pub enum Relation {
    Read,
    Filter { condition: Option<SourceExpression>, input: Option<Box<Relation>> },
    Aggregate { measures: Vec<Measure>, input: Option<Box<Relation>> },
    Project { expressions: Vec<SourceExpression>, input: Option<Box<Relation>> },
    /// A relation of any other kind.
    Other,
    /// A relation without content.
    Missing,
}

/// A top-level relation of a decoded plan.
#[derive(Debug, PartialEq)]
pub enum PlanRelation {
    /// The root of the query, with its input.
    Root(Option<Relation>),
    /// A top-level relation that is not a root.
    Other,
    /// A top-level relation without content.
    Missing,
}

/// A decoded relational plan.
#[derive(Debug, PartialEq)]
pub struct SourcePlan {
    pub extensions: Vec<ExtensionDeclaration>,
    pub relations: Vec<PlanRelation>,
}

/// What folding a chain of relations has found so far.
#[derive(Debug, PartialEq)]
pub struct Fusion {
    pub projection: Option<Expression>,
    pub filter: Option<Expression>,
    pub is_aggregate: bool,
}

/// The names of the functions that the declarations `extensions` register,
/// by anchor. A later declaration of an anchor replaces an earlier one.
pub open spec fn registered_functions(extensions: Seq<ExtensionDeclaration>) -> Map<u32, String>
    decreases extensions.len(),
{
    if extensions.len() == 0 {
        Map::empty()
    } else {
        let earlier = registered_functions(extensions.drop_last());
        match extensions.last() {
            ExtensionDeclaration::Function { function_anchor, name } => earlier.insert(
                function_anchor,
                name,
            ),
            ExtensionDeclaration::Other => earlier,
        }
    }
}

/// The column that a field index selects. A negative index wraps around, as
/// a 32-bit conversion does.
pub open spec fn selected_column(field: i32) -> u32 {
    if field >= 0 {
        field as u32
    } else {
        (field + 0x1_0000_0000) as u32
    }
}

/// The node that the function called `name` builds from two operands, if the
/// name is one of `add`, `sub`, `mul`, `gt`, `lt`, `eq`, `and`, `or`.
pub open spec fn operator_node(name: Seq<char>, left: Expression, right: Expression) -> Option<
    Expression,
> {
    if name == "add"@ {
        Some(Expression::Add(Box::new(left), Box::new(right)))
    } else if name == "sub"@ {
        Some(Expression::Subtract(Box::new(left), Box::new(right)))
    } else if name == "mul"@ {
        Some(Expression::Multiply(Box::new(left), Box::new(right)))
    } else if name == "gt"@ {
        Some(Expression::GreaterThan(Box::new(left), Box::new(right)))
    } else if name == "lt"@ {
        Some(Expression::LessThan(Box::new(left), Box::new(right)))
    } else if name == "eq"@ {
        Some(Expression::Equal(Box::new(left), Box::new(right)))
    } else if name == "and"@ {
        Some(Expression::And(Box::new(left), Box::new(right)))
    } else if name == "or"@ {
        Some(Expression::Or(Box::new(left), Box::new(right)))
    } else {
        None
    }
}

/// Whether `name` is the name of a supported function.
pub open spec fn recognized(name: Seq<char>) -> bool {
    name == "add"@ || name == "sub"@ || name == "mul"@ || name == "gt"@ || name == "lt"@ || name
        == "eq"@ || name == "and"@ || name == "or"@
}

/// The expression that a decoded expression lowers to, or the reason why it
/// does not lower. A function takes its first two arguments, the first
/// before the second; further arguments are not read.
pub open spec fn lowered(expr: SourceExpression, names: Map<u32, String>) -> Result<
    Expression,
    QueryError,
>
    decreases expr,
{
    match expr {
        SourceExpression::Missing => Err(QueryError::MalformedPlan),
        SourceExpression::Other => Err(QueryError::UnsupportedExpression),
        SourceExpression::Literal(lit) => match lit {
            SourceLiteral::I32(v) => Ok(Expression::Literal(LiteralTypes::I32(v))),
            SourceLiteral::Date(v) => Ok(Expression::Literal(LiteralTypes::Date(v))),
            SourceLiteral::Fp32(t) => Ok(Expression::Literal(LiteralTypes::F32(t))),
            SourceLiteral::Other => Err(QueryError::UnsupportedExpression),
            SourceLiteral::Missing => Err(QueryError::MalformedPlan),
        },
        SourceExpression::Selection(reference) => match reference {
            FieldReference::StructField(field) => Ok(Expression::Column(selected_column(field))),
            FieldReference::Other => Err(QueryError::UnsupportedExpression),
        },
        SourceExpression::ScalarFunction { function_reference, arguments } => {
            if !names.contains_key(function_reference) {
                Err(QueryError::UnsupportedExpression)
            } else if !recognized(names[function_reference]@) {
                Err(QueryError::UnsupportedExpression)
            } else if arguments@.len() < 1 {
                Err(QueryError::MalformedPlan)
            } else {
                match arguments@[0] {
                    FunctionArgument::Missing => Err(QueryError::MalformedPlan),
                    FunctionArgument::Other => Err(QueryError::UnsupportedExpression),
                    FunctionArgument::Value(first) => match lowered(first, names) {
                        Err(e) => Err(e),
                        Ok(left) => if arguments@.len() < 2 {
                            Err(QueryError::MalformedPlan)
                        } else {
                            match arguments@[1] {
                                FunctionArgument::Missing => Err(QueryError::MalformedPlan),
                                FunctionArgument::Other => Err(QueryError::UnsupportedExpression),
                                FunctionArgument::Value(second) => match lowered(second, names) {
                                    Err(e) => Err(e),
                                    Ok(right) => Ok(
                                        operator_node(
                                            names[function_reference]@,
                                            left,
                                            right,
                                        )->0,
                                    ),
                                },
                            }
                        },
                    },
                }
            }
        },
    }
}

/// The projection after an aggregate relation: the first argument of its
/// first measure, lowered. An argument that is not a value leaves the
/// projection as it was.
pub open spec fn aggregate_projection(
    measures: Seq<Measure>,
    names: Map<u32, String>,
    current: Option<Expression>,
) -> Result<Option<Expression>, QueryError> {
    if measures.len() == 0 {
        Err(QueryError::MalformedPlan)
    } else {
        match measures[0].arguments {
            None => Err(QueryError::MalformedPlan),
            Some(arguments) => if arguments@.len() == 0 {
                Err(QueryError::MalformedPlan)
            } else {
                match arguments@[0] {
                    FunctionArgument::Missing => Err(QueryError::MalformedPlan),
                    FunctionArgument::Other => Ok(current),
                    FunctionArgument::Value(v) => match lowered(v, names) {
                        Err(e) => Err(e),
                        Ok(p) => Ok(Some(p)),
                    },
                }
            },
        }
    }
}

/// The projection after a project relation. Without a projection so far, it
/// is the first expression of the relation. A projection that is a bare
/// column is replaced by the expression of the relation at that column's
/// index. Any other projection stays.
pub open spec fn project_projection(
    expressions: Seq<SourceExpression>,
    names: Map<u32, String>,
    current: Option<Expression>,
) -> Result<Option<Expression>, QueryError> {
    match current {
        None => if expressions.len() == 0 {
            Err(QueryError::MalformedPlan)
        } else {
            match lowered(expressions[0], names) {
                Err(e) => Err(e),
                Ok(p) => Ok(Some(p)),
            }
        },
        Some(Expression::Column(idx)) => if idx >= expressions.len() {
            Err(QueryError::MalformedPlan)
        } else {
            match lowered(expressions[idx as int], names) {
                Err(e) => Err(e),
                Ok(p) => Ok(Some(p)),
            }
        },
        Some(_) => Ok(current),
    }
}

/// The result of folding the chain of relations that starts at `rel` into
/// `acc`, walking from each relation to its input until a read or the end
/// of the chain. A second filter is not supported.
pub open spec fn fused(rel: Relation, names: Map<u32, String>, acc: Fusion) -> Result<
    Fusion,
    QueryError,
>
    decreases rel,
{
    match rel {
        Relation::Read => Ok(acc),
        Relation::Other => Err(QueryError::UnsupportedRelation),
        Relation::Missing => Err(QueryError::UnsupportedRelation),
        Relation::Filter { condition, input } => if acc.filter is Some {
            Err(QueryError::UnsupportedRelation)
        } else {
            match condition {
                None => Err(QueryError::MalformedPlan),
                Some(c) => match lowered(c, names) {
                    Err(e) => Err(e),
                    Ok(f) => {
                        let next = Fusion {
                            projection: acc.projection,
                            filter: Some(f),
                            is_aggregate: acc.is_aggregate,
                        };
                        match input {
                            None => Ok(next),
                            Some(below) => fused(*below, names, next),
                        }
                    },
                },
            }
        },
        Relation::Aggregate { measures, input } => match aggregate_projection(
            measures@,
            names,
            acc.projection,
        ) {
            Err(e) => Err(e),
            Ok(p) => {
                let next = Fusion { projection: p, filter: acc.filter, is_aggregate: true };
                match input {
                    None => Ok(next),
                    Some(below) => fused(*below, names, next),
                }
            },
        },
        Relation::Project { expressions, input } => match project_projection(
            expressions@,
            names,
            acc.projection,
        ) {
            Err(e) => Err(e),
            Ok(p) => {
                let next = Fusion {
                    projection: p,
                    filter: acc.filter,
                    is_aggregate: acc.is_aggregate,
                };
                match input {
                    None => Ok(next),
                    Some(below) => fused(*below, names, next),
                }
            },
        },
    }
}

/// What lowering a whole plan finds: the chain below the root of the first
/// top-level relation, folded from nothing, with a projection at the end.
pub open spec fn plan_fusion(plan: SourcePlan) -> Result<Fusion, QueryError> {
    if plan.relations@.len() == 0 {
        Err(QueryError::MalformedPlan)
    } else {
        match plan.relations@[0] {
            PlanRelation::Missing => Err(QueryError::MalformedPlan),
            PlanRelation::Other => Err(QueryError::UnsupportedRelation),
            PlanRelation::Root(None) => Err(QueryError::NoProjection),
            PlanRelation::Root(Some(rel)) => match fused(
                rel,
                registered_functions(plan.extensions@),
                Fusion { projection: None, filter: None, is_aggregate: false },
            ) {
                Err(e) => Err(e),
                Ok(f) => if f.projection is None {
                    Err(QueryError::NoProjection)
                } else {
                    Ok(f)
                },
            },
        }
    }
}

/// The expressions of the project relation directly below the root.
pub open spec fn project_expressions(plan: SourcePlan) -> Result<
    Seq<SourceExpression>,
    QueryError,
> {
    if plan.relations@.len() == 0 {
        Err(QueryError::MalformedPlan)
    } else {
        match plan.relations@[0] {
            PlanRelation::Missing => Err(QueryError::MalformedPlan),
            PlanRelation::Other => Err(QueryError::UnsupportedRelation),
            PlanRelation::Root(None) => Err(QueryError::MalformedPlan),
            PlanRelation::Root(Some(Relation::Missing)) => Err(QueryError::MalformedPlan),
            PlanRelation::Root(Some(Relation::Project { expressions, input })) => Ok(expressions@),
            PlanRelation::Root(Some(_)) => Err(QueryError::UnsupportedRelation),
        }
    }
}

/// Collects the function names that the plan registers, by anchor.
pub fn get_functions_map(plan: &SourcePlan) -> (map: HashMap<u32, String>)
    ensures
        map@ == registered_functions(plan.extensions@),
{
    let mut map: HashMap<u32, String> = HashMap::new();
    let mut i: usize = 0;
    while i < plan.extensions.len()
        invariant
            0 <= i <= plan.extensions@.len(),
            map@ == registered_functions(plan.extensions@.take(i as int)),
        decreases plan.extensions@.len() - i,
    {
        proof {
            assert(plan.extensions@.take(i + 1).drop_last() =~= plan.extensions@.take(i as int));
        }
        match &plan.extensions[i] {
            ExtensionDeclaration::Function { function_anchor, name } => {
                map.insert(*function_anchor, name.clone());
            },
            ExtensionDeclaration::Other => {},
        }
        i += 1;
    }
    proof {
        assert(plan.extensions@.take(i as int) =~= plan.extensions@);
    }
    map
}

fn is_named(name: &String, literal: &str) -> (r: bool)
    ensures
        r == (name@ == literal@),
{
    let other = String::from_str(literal);
    *name == other
}

fn is_recognized(name: &String) -> (r: bool)
    ensures
        r == recognized(name@),
{
    is_named(name, "add") || is_named(name, "sub") || is_named(name, "mul")
        || is_named(name, "gt") || is_named(name, "lt") || is_named(name, "eq")
        || is_named(name, "and") || is_named(name, "or")
}

fn build_node(name: &String, left: Expression, right: Expression) -> (r: Option<Expression>)
    ensures
        r == operator_node(name@, left, right),
{
    if is_named(name, "add") {
        Some(Expression::Add(Box::new(left), Box::new(right)))
    } else if is_named(name, "sub") {
        Some(Expression::Subtract(Box::new(left), Box::new(right)))
    } else if is_named(name, "mul") {
        Some(Expression::Multiply(Box::new(left), Box::new(right)))
    } else if is_named(name, "gt") {
        Some(Expression::GreaterThan(Box::new(left), Box::new(right)))
    } else if is_named(name, "lt") {
        Some(Expression::LessThan(Box::new(left), Box::new(right)))
    } else if is_named(name, "eq") {
        Some(Expression::Equal(Box::new(left), Box::new(right)))
    } else if is_named(name, "and") {
        Some(Expression::And(Box::new(left), Box::new(right)))
    } else if is_named(name, "or") {
        Some(Expression::Or(Box::new(left), Box::new(right)))
    } else {
        None
    }
}

fn column_of_field(field: i32) -> (r: u32)
    ensures
        r == selected_column(field),
{
    if field >= 0 {
        field as u32
    } else {
        (field as i64 + 0x1_0000_0000) as u32
    }
}

/// Lowers a decoded expression to the expression tree of the engine.
pub fn lower_expression(
    substrait_expr: &SourceExpression,
    function_map: &HashMap<u32, String>,
) -> (r: Result<Expression, QueryError>)
    ensures
        r == lowered(*substrait_expr, function_map@),
    decreases *substrait_expr,
{
    match substrait_expr {
        SourceExpression::Missing => Err(QueryError::MalformedPlan),
        SourceExpression::Other => Err(QueryError::UnsupportedExpression),
        SourceExpression::Literal(lit) => match lit {
            SourceLiteral::I32(v) => Ok(Expression::Literal(LiteralTypes::I32(*v))),
            SourceLiteral::Date(v) => Ok(Expression::Literal(LiteralTypes::Date(*v))),
            SourceLiteral::Fp32(t) => Ok(Expression::Literal(LiteralTypes::F32(t.clone()))),
            SourceLiteral::Other => Err(QueryError::UnsupportedExpression),
            SourceLiteral::Missing => Err(QueryError::MalformedPlan),
        },
        SourceExpression::Selection(reference) => match reference {
            FieldReference::StructField(field) => Ok(Expression::Column(column_of_field(*field))),
            FieldReference::Other => Err(QueryError::UnsupportedExpression),
        },
        SourceExpression::ScalarFunction { function_reference, arguments } => {
            let name = match function_map.get(function_reference) {
                Some(name) => name,
                None => {
                    return Err(QueryError::UnsupportedExpression);
                },
            };
            if !is_recognized(name) {
                return Err(QueryError::UnsupportedExpression);
            }
            if arguments.len() < 1 {
                return Err(QueryError::MalformedPlan);
            }
            let left = match &arguments[0] {
                FunctionArgument::Missing => {
                    return Err(QueryError::MalformedPlan);
                },
                FunctionArgument::Other => {
                    return Err(QueryError::UnsupportedExpression);
                },
                FunctionArgument::Value(first) => match lower_expression(first, function_map) {
                    Err(e) => {
                        return Err(e);
                    },
                    Ok(left) => left,
                },
            };
            if arguments.len() < 2 {
                return Err(QueryError::MalformedPlan);
            }
            let right = match &arguments[1] {
                FunctionArgument::Missing => {
                    return Err(QueryError::MalformedPlan);
                },
                FunctionArgument::Other => {
                    return Err(QueryError::UnsupportedExpression);
                },
                FunctionArgument::Value(second) => match lower_expression(second, function_map) {
                    Err(e) => {
                        return Err(e);
                    },
                    Ok(right) => right,
                },
            };
            match build_node(name, left, right) {
                Some(node) => Ok(node),
                None => Err(QueryError::UnsupportedExpression),
            }
        },
    }
}

/// Finds the expressions of the project relation directly below the root.
pub fn get_project_expression(plan: &SourcePlan) -> (r: Result<
    &Vec<SourceExpression>,
    QueryError,
>)
    ensures
        match project_expressions(*plan) {
            Ok(expressions) => r matches Ok(found) && found@ == expressions,
            Err(e) => r == Err::<&Vec<SourceExpression>, QueryError>(e),
        },
{
    if plan.relations.len() == 0 {
        return Err(QueryError::MalformedPlan);
    }
    match &plan.relations[0] {
        PlanRelation::Missing => Err(QueryError::MalformedPlan),
        PlanRelation::Other => Err(QueryError::UnsupportedRelation),
        PlanRelation::Root(input) => match input {
            None => Err(QueryError::MalformedPlan),
            Some(Relation::Missing) => Err(QueryError::MalformedPlan),
            Some(Relation::Project { expressions, input }) => Ok(expressions),
            Some(_) => Err(QueryError::UnsupportedRelation),
        },
    }
}

fn fuse_aggregate(
    measures: &Vec<Measure>,
    function_map: &HashMap<u32, String>,
    current: Option<Expression>,
) -> (r: Result<Option<Expression>, QueryError>)
    ensures
        r == aggregate_projection(measures@, function_map@, current),
{
    if measures.len() == 0 {
        return Err(QueryError::MalformedPlan);
    }
    match &measures[0].arguments {
        None => Err(QueryError::MalformedPlan),
        Some(arguments) => {
            if arguments.len() == 0 {
                return Err(QueryError::MalformedPlan);
            }
            match &arguments[0] {
                FunctionArgument::Missing => Err(QueryError::MalformedPlan),
                FunctionArgument::Other => Ok(current),
                FunctionArgument::Value(v) => match lower_expression(v, function_map) {
                    Err(e) => Err(e),
                    Ok(p) => Ok(Some(p)),
                },
            }
        },
    }
}

fn fuse_project(
    expressions: &Vec<SourceExpression>,
    function_map: &HashMap<u32, String>,
    current: Option<Expression>,
) -> (r: Result<Option<Expression>, QueryError>)
    ensures
        r == project_projection(expressions@, function_map@, current),
{
    match current {
        None => {
            if expressions.len() == 0 {
                return Err(QueryError::MalformedPlan);
            }
            match lower_expression(&expressions[0], function_map) {
                Err(e) => Err(e),
                Ok(p) => Ok(Some(p)),
            }
        },
        Some(Expression::Column(idx)) => {
            if idx as usize >= expressions.len() {
                return Err(QueryError::MalformedPlan);
            }
            match lower_expression(&expressions[idx as usize], function_map) {
                Err(e) => Err(e),
                Ok(p) => Ok(Some(p)),
            }
        },
        Some(other) => Ok(Some(other)),
    }
}

/// Folds the chain of relations that starts at `rel` into `acc`.
pub fn fuse_relations(rel: &Relation, function_map: &HashMap<u32, String>, acc: Fusion) -> (r:
    Result<Fusion, QueryError>)
    ensures
        r == fused(*rel, function_map@, acc),
    decreases *rel,
{
    match rel {
        Relation::Read => Ok(acc),
        Relation::Other => Err(QueryError::UnsupportedRelation),
        Relation::Missing => Err(QueryError::UnsupportedRelation),
        Relation::Filter { condition, input } => {
            if acc.filter.is_some() {
                return Err(QueryError::UnsupportedRelation);
            }
            match condition {
                None => Err(QueryError::MalformedPlan),
                Some(c) => match lower_expression(c, function_map) {
                    Err(e) => Err(e),
                    Ok(f) => {
                        let next = Fusion {
                            projection: acc.projection,
                            filter: Some(f),
                            is_aggregate: acc.is_aggregate,
                        };
                        match input {
                            None => Ok(next),
                            Some(below) => fuse_relations(below, function_map, next),
                        }
                    },
                },
            }
        },
        Relation::Aggregate { measures, input } => {
            let Fusion { projection, filter, is_aggregate } = acc;
            match fuse_aggregate(measures, function_map, projection) {
                Err(e) => Err(e),
                Ok(p) => {
                    let next = Fusion { projection: p, filter, is_aggregate: true };
                    match input {
                        None => Ok(next),
                        Some(below) => fuse_relations(below, function_map, next),
                    }
                },
            }
        },
        Relation::Project { expressions, input } => {
            let Fusion { projection, filter, is_aggregate } = acc;
            match fuse_project(expressions, function_map, projection) {
                Err(e) => Err(e),
                Ok(p) => {
                    let next = Fusion { projection: p, filter, is_aggregate };
                    match input {
                        None => Ok(next),
                        Some(below) => fuse_relations(below, function_map, next),
                    }
                },
            }
        },
    }
}

/// Lowers a decoded plan: folds the relations below its root into one
/// projection, at most one filter and the aggregate flag. The plan that
/// comes back has no column types yet.
pub fn lower_plan(plan: &SourcePlan) -> (r: Result<PhysicalPlan, QueryError>)
    ensures
        match plan_fusion(*plan) {
            Ok(f) => r matches Ok(p) && p.holds(f) && p.column_types@ == Map::<
                u32,
                ColumnType,
            >::empty(),
            Err(e) => r matches Err(found) && found == e,
        },
{
    if plan.relations.len() == 0 {
        return Err(QueryError::MalformedPlan);
    }
    let root = match &plan.relations[0] {
        PlanRelation::Missing => {
            return Err(QueryError::MalformedPlan);
        },
        PlanRelation::Other => {
            return Err(QueryError::UnsupportedRelation);
        },
        PlanRelation::Root(input) => input,
    };
    let fn_map = get_functions_map(plan);
    let start = Fusion { projection: None, filter: None, is_aggregate: false };
    let fusion = match root {
        None => start,
        Some(rel) => match fuse_relations(rel, &fn_map, start) {
            Err(e) => {
                return Err(e);
            },
            Ok(f) => f,
        },
    };
    match fusion.projection {
        None => Err(QueryError::NoProjection),
        Some(projection) => Ok(
            PhysicalPlan {
                projection,
                filter: fusion.filter,
                is_aggregate: fusion.is_aggregate,
                column_types: HashMap::new(),
            },
        ),
    }
}

} // verus!
