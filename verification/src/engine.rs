//! The template engine, as far as a page needs it: the values and the
//! context that a template reads, and the rendering of a named template.
//!
//! Nothing in this file is proved. Each function makes one call into the
//! engine and states what the engine's own code does there, over two models:
//! the [`Shape`] of a value and the entries of a context. Of an engine it
//! is stated which sources it holds as templates, and under which names.
//! Whether an engine takes a source has a name and no definition; what
//! rendering gives is nowhere stated.

use vstd::prelude::*;

verus! {

/// Trusted: `tera::Tera`, the engine with its templates. Opaque here;
/// [`template_sources`] stands for the templates that it holds.
#[verifier::external_type_specification]
#[verifier::external_body]
pub struct ExTera(tera::Tera);

/// Trusted: `tera::Context`, the named values that a template is rendered
/// with. Opaque here; [`context_entries`] stands for what it holds.
#[verifier::external_type_specification]
#[verifier::external_body]
pub struct ExContext(tera::Context);

/// Trusted: `tera::Value`, one value of a context. Opaque here;
/// [`value_shape`] stands for what it holds.
#[verifier::external_type_specification]
#[verifier::external_body]
pub struct ExValue(tera::Value);

/// Trusted: `tera::Error`, the engine's reason for a failure. Opaque here.
#[verifier::external_type_specification]
#[verifier::external_body]
pub struct ExError(tera::Error);

/// What a template sees of a value that is handed to it.
pub ghost enum Shape {
    /// The value that stands for nothing.
    Absent,
    /// An unsigned whole number.
    Number(nat),
    /// A string that the engine escapes when it prints it.
    Text(Seq<char>),
    /// An array.
    List(Seq<Shape>),
    /// A map from field names to values.
    Record(Map<Seq<char>, Shape>),
}

/// The shape of an engine value: what the value holds, as far as the
/// constructors below say.
pub uninterp spec fn value_shape(value: tera::Value) -> Shape;

/// The entries of an engine context: for each name that it holds, the shape
/// of the value under that name.
pub uninterp spec fn context_entries(context: tera::Context) -> Map<Seq<char>, Shape>;

/// The templates that an engine holds: for each name under which it holds
/// one, the source that the template was made from.
pub uninterp spec fn template_sources(engine: tera::Tera) -> Map<Seq<char>, Seq<char>>;

/// Whether an engine takes a source as a template under a name: whether the
/// source parses, and the engine's templates still fit together with it.
pub uninterp spec fn template_accepted(engine: tera::Tera, name: Seq<char>, source: Seq<char>) -> bool;

/// The templates of an engine that holds none.
pub open spec fn no_templates() -> Map<Seq<char>, Seq<char>> {
    Map::empty()
}

/// The entries of a context that holds nothing.
pub open spec fn no_entries() -> Map<Seq<char>, Shape> {
    Map::empty()
}

/// The shapes of a sequence of engine values.
pub open spec fn value_shapes(values: Seq<tera::Value>) -> Seq<Shape> {
    values.map_values(|v: tera::Value| value_shape(v))
}

/// The record that named values make up, the values added one after the
/// other.
pub open spec fn field_shapes(fields: Seq<(String, tera::Value)>) -> Map<Seq<char>, Shape>
    decreases fields.len(),
{
    if fields.len() == 0 {
        Map::empty()
    } else {
        field_shapes(fields.drop_last()).insert(fields.last().0@, value_shape(fields.last().1))
    }
}

/// Whether no two of the named values have the same name.
pub open spec fn distinct_names(fields: Seq<(String, tera::Value)>) -> bool {
    forall|i: int, j: int|
        0 <= i < j < fields.len() ==> (#[trigger] fields[i]).0@ != (#[trigger] fields[j]).0@
}

/// Trusted: `tera::Value::from` for `u32`, which stores the number as an
/// unsigned integer.
#[verifier::external_body]
pub(crate) fn number_value(n: u32) -> (v: tera::Value)
    ensures
        value_shape(v) == Shape::Number(n as nat),
{
    tera::Value::from(n)
}

/// Trusted: `tera::Value::from` for `Option<&str>`, which gives a string
/// with the same characters for `Some`, one that is escaped when printed,
/// and the engine's none value for `None`.
#[verifier::external_body]
pub(crate) fn text_value(text: Option<&str>) -> (v: tera::Value)
    ensures
        value_shape(v) == match text {
            Some(s) => Shape::Text(s@),
            None => Shape::Absent,
        },
{
    tera::Value::from(text)
}

/// Trusted: `tera::Value::from` for `Vec<tera::Value>`, which gives an array
/// of the same values in the same order.
#[verifier::external_body]
pub(crate) fn list_value(items: Vec<tera::Value>) -> (v: tera::Value)
    ensures
        value_shape(v) == Shape::List(value_shapes(items@)),
{
    tera::Value::from(items)
}

/// Trusted: `tera::Value::from` for `BTreeMap<String, tera::Value>`, which
/// gives a map with one entry for each entry of the tree, under the same
/// name. The body first collects the named values into the tree; with
/// distinct names none is dropped.
#[verifier::external_body]
pub(crate) fn record_value(fields: Vec<(String, tera::Value)>) -> (v: tera::Value)
    requires
        distinct_names(fields@),
    ensures
        value_shape(v) == Shape::Record(field_shapes(fields@)),
{
    tera::Value::from(fields.into_iter().collect::<std::collections::BTreeMap<String, tera::Value>>())
}

/// Trusted: `tera::Context::new`, which gives a context without entries.
#[verifier::external_body]
pub(crate) fn new_context() -> (c: tera::Context)
    ensures
        context_entries(c) == no_entries(),
{
    tera::Context::new()
}

/// Trusted: `tera::Context::insert_value`, which puts the value under the
/// name, in place of what the name held before.
#[verifier::external_body]
pub(crate) fn context_insert(context: &mut tera::Context, name: &str, value: tera::Value)
    ensures
        context_entries(*final(context)) == context_entries(*old(context)).insert(
            name@,
            value_shape(value),
        ),
{
    context.insert_value(name.to_owned(), value)
}

/// Trusted: `tera::Tera::default`, which gives an engine that holds no
/// template.
#[verifier::external_body]
pub(crate) fn new_engine() -> (engine: tera::Tera)
    ensures
        template_sources(engine) == no_templates(),
{
    tera::Tera::default()
}

/// Trusted: `tera::Tera::add_raw_template`, which parses the source and
/// keeps it under the name, or says why it cannot. Whether it succeeds
/// depends on the engine, the name and the source alone, and
/// [`template_accepted`] is the name of that. Where it succeeds, the engine
/// holds the source under that name besides the templates that it held;
/// where it fails, it takes the template out again and the engine holds the
/// templates that it held.
#[verifier::external_body]
pub(crate) fn add_template(engine: &mut tera::Tera, name: &str, source: &str) -> (r: Result<
    (),
    tera::Error,
>)
    ensures
        r is Ok <==> template_accepted(*old(engine), name@, source@),
        template_sources(*final(engine)) == match r {
            Ok(_) => template_sources(*old(engine)).insert(name@, source@),
            Err(_) => template_sources(*old(engine)),
        },
{
    engine.add_raw_template(name, source)
}

/// Trusted: `tera::Tera::render`, which renders the template of that name
/// with the context, or says why it cannot. Nothing is stated of the
/// outcome.
#[verifier::external_body]
pub(crate) fn render(engine: &tera::Tera, name: &str, context: &tera::Context) -> Result<
    String,
    tera::Error,
> {
    engine.render(name, context)
}

/// Trusted: the `Display` text of a `tera::Error`. Nothing is stated of it.
#[verifier::external_body]
pub(crate) fn describe(error: &tera::Error) -> String {
    error.to_string()
}

} // verus!
