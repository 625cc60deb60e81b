use value_iteration::expression::{
    drop_bindings, CompileError, Context, Error, Expression, FunctionClosure, Outcome, Scope,
};
use value_iteration::for_each::{ForEach, ForEachFn};
use value_iteration::function::{Argument, ArgumentList, Function, Output, VariableKind};
use value_iteration::iter::IterItem;
use value_iteration::kind::{Kind, Shapes, TypeDef};
use value_iteration::map_values::{map_entries, MapValues, MapValuesFn};
use value_iteration::value::{copy_bytes, Value};

fn num(n: i64) -> Value {
    Value::Integer(n)
}

fn object(entries: Vec<(&str, Value)>) -> Value {
    Value::Object(entries.into_iter().map(|(k, v)| (k.to_string(), v)).collect())
}

fn scope(locals: Vec<Value>) -> Context {
    Context { target: Value::Null, locals }
}

/// Evaluates to a fixed value.
struct Literal(Value, Kind);

impl Expression for Literal {
    fn outcome(&self, _scope: Scope) -> Outcome {
        unreachable!()
    }

    fn static_type(&self) -> TypeDef {
        unreachable!()
    }

    fn resolve(&self, _ctx: &mut Context) -> Result<Value, Error> {
        Ok(self.0.duplicate())
    }

    fn type_def(&self) -> TypeDef {
        TypeDef { kind: self.1, fallible: false }
    }
}

fn literal(value: Value) -> Literal {
    Literal(value, Kind::any())
}

/// Always fails.
struct Failing;

impl Expression for Failing {
    fn outcome(&self, _scope: Scope) -> Outcome {
        unreachable!()
    }

    fn static_type(&self) -> TypeDef {
        unreachable!()
    }

    fn resolve(&self, _ctx: &mut Context) -> Result<Value, Error> {
        Err(Error::Runtime("no target".to_string()))
    }

    fn type_def(&self) -> TypeDef {
        TypeDef { kind: Kind::any(), fallible: true }
    }
}

/// Does nothing.
struct Idle;

impl Expression for Idle {
    fn outcome(&self, _scope: Scope) -> Outcome {
        unreachable!()
    }

    fn static_type(&self) -> TypeDef {
        unreachable!()
    }

    fn resolve(&self, _ctx: &mut Context) -> Result<Value, Error> {
        Ok(Value::Null)
    }

    fn type_def(&self) -> TypeDef {
        TypeDef { kind: Kind::null(), fallible: false }
    }
}

fn as_int(value: &Value) -> i64 {
    match value {
        Value::Integer(n) => *n,
        _ => 0,
    }
}

/// `count = count + value`, with `count` the outermost binding.
struct AddValue;

impl Expression for AddValue {
    fn outcome(&self, _scope: Scope) -> Outcome {
        unreachable!()
    }

    fn static_type(&self) -> TypeDef {
        unreachable!()
    }

    fn resolve(&self, ctx: &mut Context) -> Result<Value, Error> {
        let n = ctx.locals.len();
        let sum = as_int(&ctx.locals[0]) + as_int(&ctx.locals[n - 1]);
        ctx.locals[0] = Value::Integer(sum);
        Ok(Value::Integer(sum))
    }

    fn type_def(&self) -> TypeDef {
        TypeDef { kind: Kind::any(), fallible: false }
    }
}

/// `count = count + index + value`.
struct AddIndexAndValue;

impl Expression for AddIndexAndValue {
    fn outcome(&self, _scope: Scope) -> Outcome {
        unreachable!()
    }

    fn static_type(&self) -> TypeDef {
        unreachable!()
    }

    fn resolve(&self, ctx: &mut Context) -> Result<Value, Error> {
        let n = ctx.locals.len();
        let sum = as_int(&ctx.locals[0]) + as_int(&ctx.locals[n - 2]) + as_int(&ctx.locals[n - 1]);
        ctx.locals[0] = Value::Integer(sum);
        Ok(Value::Null)
    }

    fn type_def(&self) -> TypeDef {
        TypeDef { kind: Kind::any(), fallible: false }
    }
}

/// Adds the value to the count, then fails where the value is the given one.
struct AddThenFailOn(i64);

impl Expression for AddThenFailOn {
    fn outcome(&self, _scope: Scope) -> Outcome {
        unreachable!()
    }

    fn static_type(&self) -> TypeDef {
        unreachable!()
    }

    fn resolve(&self, ctx: &mut Context) -> Result<Value, Error> {
        let n = ctx.locals.len();
        let value = as_int(&ctx.locals[n - 1]);
        ctx.locals[0] = Value::Integer(as_int(&ctx.locals[0]) + value);
        if value == self.0 {
            Err(Error::Runtime("failed cast".to_string()))
        } else {
            Ok(Value::Integer(value))
        }
    }

    fn type_def(&self) -> TypeDef {
        TypeDef { kind: Kind::any(), fallible: true }
    }
}

/// Appends the pair of bindings it was run with to the target array.
struct Record;

impl Expression for Record {
    fn outcome(&self, _scope: Scope) -> Outcome {
        unreachable!()
    }

    fn static_type(&self) -> TypeDef {
        unreachable!()
    }

    fn resolve(&self, ctx: &mut Context) -> Result<Value, Error> {
        let n = ctx.locals.len();
        let pair = Value::Array(vec![ctx.locals[n - 2].duplicate(), ctx.locals[n - 1].duplicate()]);
        if let Value::Array(seen) = &mut ctx.target {
            seen.push(pair);
        }
        Ok(Value::Null)
    }

    fn type_def(&self) -> TypeDef {
        TypeDef { kind: Kind::any(), fallible: false }
    }
}

/// `int!(value) + 1`: fails on anything but an integer.
struct Increment;

impl Expression for Increment {
    fn outcome(&self, _scope: Scope) -> Outcome {
        unreachable!()
    }

    fn static_type(&self) -> TypeDef {
        unreachable!()
    }

    fn resolve(&self, ctx: &mut Context) -> Result<Value, Error> {
        match ctx.locals.last() {
            Some(Value::Integer(n)) => Ok(Value::Integer(n + 1)),
            _ => Err(Error::Runtime("expected integer".to_string())),
        }
    }

    fn type_def(&self) -> TypeDef {
        TypeDef { kind: Kind::any(), fallible: true }
    }
}

/// `if is_integer(value) { int!(value) + 1 } else { value }`.
struct IncrementIntegers;

impl Expression for IncrementIntegers {
    fn outcome(&self, _scope: Scope) -> Outcome {
        unreachable!()
    }

    fn static_type(&self) -> TypeDef {
        unreachable!()
    }

    fn resolve(&self, ctx: &mut Context) -> Result<Value, Error> {
        match ctx.locals.last() {
            Some(Value::Integer(n)) => Ok(Value::Integer(n + 1)),
            Some(other) => Ok(other.duplicate()),
            None => Ok(Value::Null),
        }
    }

    fn type_def(&self) -> TypeDef {
        TypeDef { kind: Kind::any(), fallible: false }
    }
}

/// Gives its value back.
struct Same;

impl Expression for Same {
    fn outcome(&self, _scope: Scope) -> Outcome {
        unreachable!()
    }

    fn static_type(&self) -> TypeDef {
        unreachable!()
    }

    fn resolve(&self, ctx: &mut Context) -> Result<Value, Error> {
        Ok(ctx.locals.last().map(Value::duplicate).unwrap_or(Value::Null))
    }

    fn type_def(&self) -> TypeDef {
        TypeDef { kind: Kind::integer_only(), fallible: false }
    }
}

trait IntegerOnly {
    fn integer_only() -> Kind;
}

impl IntegerOnly for Kind {
    fn integer_only() -> Kind {
        let mut shapes = Shapes::none();
        shapes.integer = true;
        Kind { shapes, array_items: Shapes::none(), object_items: Shapes::none() }
    }
}

fn for_each<B: Expression>(target: Value, block: B) -> ForEachFn<Literal, B> {
    ForEachFn { value: literal(target), closure: FunctionClosure::new(block) }
}

fn map_values<B: Expression>(
    target: Value,
    recursive: Option<Value>,
    block: B,
) -> MapValuesFn<Literal, Literal, B> {
    MapValuesFn {
        value: literal(target),
        recursive: recursive.map(literal),
        closure: FunctionClosure::new(block),
    }
}

fn nested() -> Value {
    object(vec![
        ("a", num(1)),
        ("b", Value::Array(vec![object(vec![("c", num(2))]), object(vec![("d", num(3))])])),
        ("e", object(vec![("f", num(4))])),
    ])
}

// ---- the value tree and its traversal

#[test]
fn duplicate_is_equal_and_separate() {
    let v = nested();
    let mut copy = v.duplicate();
    assert_eq!(copy, v);
    if let Value::Object(entries) = &mut copy {
        entries[0].1 = num(99);
    }
    assert_eq!(v, nested());
    assert_ne!(copy, v);
}

#[test]
fn duplicate_keeps_every_scalar() {
    let v = Value::Array(vec![
        Value::Null,
        Value::Boolean(true),
        num(-3),
        Value::Float(0x3ff0_0000_0000_0000),
        Value::Bytes(vec![1, 2, 3]),
        Value::Timestamp(1_000),
        Value::Regex("a+".to_string()),
    ]);
    assert_eq!(v.duplicate(), v);
}

#[test]
fn copy_bytes_copies() {
    assert_eq!(copy_bytes(&vec![9, 8, 7]), vec![9, 8, 7]);
    assert_eq!(copy_bytes(&Vec::new()), Vec::<u8>::new());
}

#[test]
fn container_and_entry_count() {
    assert!(nested().is_container());
    assert!(Value::Array(Vec::new()).is_container());
    assert!(!num(1).is_container());
    assert_eq!(nested().entry_count(), 3);
    assert_eq!(Value::Array(vec![num(1), num(2)]).entry_count(), 2);
    assert_eq!(Value::Null.entry_count(), 0);
}

#[test]
fn fresh_iterator_gives_the_value_back() {
    assert_eq!(nested().into_iter(false).into_value(), nested());
    assert_eq!(nested().into_iter(true).into_value(), nested());
    assert_eq!(num(5).into_iter(false).into_value(), num(5));
}

#[test]
fn object_yields_entries_in_insertion_order() {
    let mut iter = object(vec![("z", num(1)), ("a", num(2))]).into_iter(false);
    assert_eq!(iter.next(), Some(IterItem::KeyValue("z".to_string(), num(1))));
    assert_eq!(iter.next(), Some(IterItem::KeyValue("a".to_string(), num(2))));
    assert_eq!(iter.next(), None);
    assert_eq!(iter.next(), None);
}

#[test]
fn array_yields_items_with_indices_from_zero() {
    let mut iter = Value::Array(vec![num(7), num(8)]).into_iter(false);
    assert_eq!(iter.next(), Some(IterItem::IndexValue(0, num(7))));
    assert_eq!(iter.next(), Some(IterItem::IndexValue(1, num(8))));
    assert_eq!(iter.next(), None);
}

#[test]
fn scalar_yields_nothing() {
    let mut iter = Value::Bytes(vec![1]).into_iter(false);
    assert_eq!(iter.next(), None);
    assert_eq!(iter.into_value(), Value::Bytes(vec![1]));
}

#[test]
fn write_back_replaces_the_slot_handed_out_last() {
    let mut iter = object(vec![("a", num(1)), ("b", num(2))]).into_iter(false);
    iter.write_back(num(50));
    iter.next();
    iter.next();
    iter.write_back(num(20));
    assert_eq!(iter.into_value(), object(vec![("a", num(1)), ("b", num(20))]));

    let mut iter = Value::Array(vec![num(1), num(2)]).into_iter(true);
    assert!(iter.is_recursive());
    iter.next();
    iter.write_back(Value::Null);
    assert_eq!(iter.into_value(), Value::Array(vec![Value::Null, num(2)]));
}

#[test]
fn item_gives_its_value() {
    assert_eq!(IterItem::Value(num(1)).into_value(), num(1));
    assert_eq!(IterItem::KeyValue("k".to_string(), num(2)).into_value(), num(2));
    assert_eq!(IterItem::IndexValue(4, num(3)).into_value(), num(3));
}

// ---- the closure

#[test]
fn key_is_bound_as_its_bytes_and_index_as_integer() {
    let closure = FunctionClosure::new(Record);
    let mut ctx = Context { target: Value::Array(Vec::new()), locals: vec![num(0)] };
    closure.run_key_value(&mut ctx, "ab", &num(1)).unwrap();
    closure.run_index_value(&mut ctx, 3, &num(2)).unwrap();
    assert_eq!(ctx.locals, vec![num(0)]);
    assert_eq!(
        ctx.target,
        Value::Array(vec![
            Value::Array(vec![Value::Bytes(vec![b'a', b'b']), num(1)]),
            Value::Array(vec![num(3), num(2)]),
        ])
    );
}

#[test]
fn map_value_replaces_in_place_and_keeps_on_failure() {
    let closure = FunctionClosure::new(Increment);
    let mut ctx = scope(vec![]);
    let mut value = num(4);
    assert_eq!(closure.map_value(&mut ctx, &mut value), Ok(()));
    assert_eq!(value, num(5));
    let mut value = Value::Null;
    assert_eq!(
        closure.map_value(&mut ctx, &mut value),
        Err(Error::Runtime("expected integer".to_string()))
    );
    assert_eq!(value, Value::Null);
    assert_eq!(ctx.locals, Vec::<Value>::new());
}

#[test]
fn drop_bindings_stops_at_the_empty_scope() {
    let mut ctx = scope(vec![num(1), num(2), num(3)]);
    drop_bindings(&mut ctx, 2);
    assert_eq!(ctx.locals, vec![num(1)]);
    drop_bindings(&mut ctx, 5);
    assert_eq!(ctx.locals, Vec::<Value>::new());
}

// ---- for_each

#[test]
fn for_each_object_adds_values() {
    let node = for_each(object(vec![("a", num(1)), ("b", num(2))]), AddValue);
    let mut ctx = scope(vec![num(0)]);
    assert_eq!(node.resolve(&mut ctx), Ok(Value::Null));
    assert_eq!(ctx.locals, vec![num(3)]);
}

#[test]
fn for_each_array_adds_indices_and_values() {
    let node = for_each(Value::Array(vec![num(1), num(2), num(3)]), AddIndexAndValue);
    let mut ctx = scope(vec![num(0)]);
    assert_eq!(node.resolve(&mut ctx), Ok(Value::Null));
    assert_eq!(ctx.locals, vec![num(9)]);
}

#[test]
fn for_each_with_idle_closure_changes_nothing() {
    let node = for_each(nested(), Idle);
    let mut ctx = Context { target: num(1), locals: vec![num(2), num(3)] };
    assert_eq!(node.resolve(&mut ctx), Ok(Value::Null));
    assert_eq!(ctx.target, num(1));
    assert_eq!(ctx.locals, vec![num(2), num(3)]);
}

#[test]
fn for_each_array_runs_once_per_item_in_order() {
    let node = for_each(Value::Array(vec![num(10), num(20), num(30)]), Record);
    let mut ctx = Context { target: Value::Array(Vec::new()), locals: Vec::new() };
    assert_eq!(node.resolve(&mut ctx), Ok(Value::Null));
    assert_eq!(
        ctx.target,
        Value::Array(vec![
            Value::Array(vec![num(0), num(10)]),
            Value::Array(vec![num(1), num(20)]),
            Value::Array(vec![num(2), num(30)]),
        ])
    );
}

#[test]
fn for_each_stops_at_the_first_failure() {
    let node = for_each(Value::Array(vec![num(1), num(2), num(4)]), AddThenFailOn(2));
    let mut ctx = scope(vec![num(0)]);
    assert_eq!(node.resolve(&mut ctx), Err(Error::Runtime("failed cast".to_string())));
    assert_eq!(ctx.locals, vec![num(3)]);
}

#[test]
fn for_each_on_a_scalar_is_null_without_a_run() {
    let node = for_each(num(5), AddValue);
    let mut ctx = scope(vec![num(0)]);
    assert_eq!(node.resolve(&mut ctx), Ok(Value::Null));
    assert_eq!(ctx.locals, vec![num(0)]);
}

#[test]
fn for_each_hands_on_the_failure_of_its_target() {
    let node = ForEachFn { value: Failing, closure: FunctionClosure::new(AddValue) };
    let mut ctx = scope(vec![num(0)]);
    assert_eq!(node.resolve(&mut ctx), Err(Error::Runtime("no target".to_string())));
    assert_eq!(ctx.locals, vec![num(0)]);
}

#[test]
fn for_each_is_null_and_as_fallible_as_its_closure() {
    let node = for_each(Value::Null, Idle);
    assert_eq!(node.type_def(), TypeDef { kind: Kind::null(), fallible: false });
    let node = for_each(Value::Null, Increment);
    assert_eq!(node.type_def(), TypeDef { kind: Kind::null(), fallible: true });
}

#[test]
fn for_each_describes_itself() {
    assert_eq!(ForEach.identifier(), "for_each");
    let parameters = ForEach.parameters();
    assert_eq!(parameters.len(), 1);
    assert_eq!(parameters[0].keyword, "value");
    assert!(parameters[0].required);
    assert_eq!(parameters[0].kind, Kind::object(Shapes::all()).or_array(Shapes::all()));
    let examples = ForEach.examples();
    assert_eq!(examples.len(), 2);
    assert_eq!(examples[0].title, "iterate object");
    assert_eq!(
        examples[0].source,
        r#"count = 0; for_each({ "a": 1, "b": 2 }) -> |_key, value| { count = count + value }; count"#
    );
    assert_eq!(examples[0].result, Ok("3"));
    assert_eq!(examples[1].title, "iterate array");
    assert_eq!(
        examples[1].source,
        r#"count = 0; for_each([1,2,3]) -> |index, value| { count = count + index + value }; count"#
    );
    assert_eq!(examples[1].result, Ok("9"));
}

#[test]
fn for_each_declares_its_closure() {
    let definition = ForEach.closure().unwrap();
    assert!(definition.is_iterator);
    assert_eq!(definition.inputs.len(), 1);
    let input = &definition.inputs[0];
    assert_eq!(input.parameter_keyword, "value");
    assert_eq!(input.kind, Kind::object(Shapes::all()).or_array(Shapes::all()));
    assert_eq!(input.variables.len(), 2);
    assert!(matches!(input.variables[0].kind, VariableKind::TargetInnerKey));
    assert!(matches!(input.variables[1].kind, VariableKind::TargetInnerValue));
    assert!(matches!(input.output, Output::Kind(kind) if kind == Kind::any()));
    assert_eq!(input.example.title, "iterate array");
    assert_eq!(
        input.example.source,
        r#"for_each([1, 2]) -> |index, value| { .foo = to_int!(.foo) + index + value }"#
    );
    assert_eq!(input.example.result, Ok("null"));
}

#[test]
fn for_each_is_not_available_in_the_vm() {
    let mut ctx = scope(vec![num(1)]);
    let mut args = vec![num(2)];
    assert_eq!(ForEach.call_by_vm(&mut ctx, &mut args), Err(Error::UnsupportedExecutionMode));
    assert_eq!(ctx.locals, vec![num(1)]);
    assert_eq!(args, vec![num(2)]);
}

fn argument(keyword: &str, value: Value, kind: Kind) -> Argument<Literal> {
    Argument { keyword: keyword.to_string(), expression: Literal(value, kind) }
}

#[test]
fn for_each_compiles_a_fitting_call() {
    let arguments = ArgumentList {
        arguments: vec![
            argument("other", num(0), Kind::any()),
            argument("value", Value::Array(vec![num(1), num(2)]), Kind::array(Shapes::all())),
            argument("value", num(5), Kind::any()),
        ],
        closure: Some(FunctionClosure::new(AddValue)),
    };
    let node = ForEach.compile(arguments).unwrap();
    let mut ctx = scope(vec![num(0)]);
    assert_eq!(node.resolve(&mut ctx), Ok(Value::Null));
    assert_eq!(ctx.locals, vec![num(3)]);
}

#[test]
fn for_each_refuses_a_call_that_does_not_fit() {
    let missing: ArgumentList<Literal, Idle> = ArgumentList {
        arguments: vec![argument("other", num(0), Kind::any())],
        closure: Some(FunctionClosure::new(Idle)),
    };
    assert_eq!(
        ForEach.compile(missing).err(),
        Some(CompileError::MissingArgument("value".to_string()))
    );
    let mismatch: ArgumentList<Literal, Idle> = ArgumentList {
        arguments: vec![argument("value", Value::Null, Kind::null())],
        closure: Some(FunctionClosure::new(Idle)),
    };
    assert_eq!(
        ForEach.compile(mismatch).err(),
        Some(CompileError::KindMismatch("value".to_string()))
    );
    let bare: ArgumentList<Literal, Idle> = ArgumentList {
        arguments: vec![argument("value", nested(), Kind::any())],
        closure: None,
    };
    assert_eq!(ForEach.compile(bare).err(), Some(CompileError::MissingClosure));
}

#[test]
fn argument_list_finds_and_takes_the_first_match() {
    let mut list: ArgumentList<Literal, Idle> = ArgumentList {
        arguments: vec![
            argument("a", num(1), Kind::any()),
            argument("b", num(2), Kind::null()),
            argument("a", num(3), Kind::any()),
        ],
        closure: None,
    };
    assert_eq!(list.find("a"), Some(0));
    assert_eq!(list.find("b"), Some(1));
    assert_eq!(list.find("c"), None);
    assert!(list.fits(0, Kind::boolean()));
    assert!(!list.fits(1, Kind::boolean()));
    assert!(list.optional("c").is_none());
    assert_eq!(list.optional("a").map(|e| e.0), Some(num(1)));
    assert_eq!(list.arguments.len(), 2);
    assert_eq!(list.find("a"), Some(1));
    assert_eq!(list.required_closure().err(), Some(CompileError::MissingClosure));
}

// ---- map_values

#[test]
fn map_values_increments_each_value() {
    let node = map_values(object(vec![("a", num(1)), ("b", num(2))]), None, Increment);
    let mut ctx = scope(vec![]);
    assert_eq!(node.resolve(&mut ctx), Ok(object(vec![("a", num(2)), ("b", num(3))])));
    assert_eq!(ctx.locals, Vec::<Value>::new());
}

#[test]
fn map_values_reaches_every_depth_when_asked() {
    let node = map_values(nested(), Some(Value::Boolean(true)), IncrementIntegers);
    let mut ctx = scope(vec![]);
    let expected = object(vec![
        ("a", num(2)),
        ("b", Value::Array(vec![object(vec![("c", num(3))]), object(vec![("d", num(4))])])),
        ("e", object(vec![("f", num(5))])),
    ]);
    assert_eq!(node.resolve(&mut ctx), Ok(expected));
}

#[test]
fn map_values_stays_at_the_top_unless_asked() {
    let expected = object(vec![
        ("a", num(2)),
        ("b", Value::Array(vec![object(vec![("c", num(2))]), object(vec![("d", num(3))])])),
        ("e", object(vec![("f", num(4))])),
    ]);
    let node = map_values(nested(), None, IncrementIntegers);
    assert_eq!(node.resolve(&mut scope(vec![])), Ok(expected.duplicate()));
    let node = map_values(nested(), Some(Value::Boolean(false)), IncrementIntegers);
    assert_eq!(node.resolve(&mut scope(vec![])), Ok(expected));
}

#[test]
fn map_values_with_the_identity_gives_the_input() {
    let node = map_values(nested(), None, Same);
    assert_eq!(node.resolve(&mut scope(vec![num(1)])), Ok(nested()));
    let node = map_values(nested(), Some(Value::Boolean(true)), Same);
    let mut ctx = scope(vec![num(1)]);
    assert_eq!(node.resolve(&mut ctx), Ok(nested()));
    assert_eq!(ctx.locals, vec![num(1)]);
}

#[test]
fn map_values_maps_an_array() {
    let node = map_values(Value::Array(vec![num(1), num(5)]), None, Increment);
    assert_eq!(node.resolve(&mut scope(vec![])), Ok(Value::Array(vec![num(2), num(6)])));
}

#[test]
fn map_values_leaves_a_scalar_as_it_is() {
    let node = map_values(num(5), Some(Value::Boolean(true)), Increment);
    assert_eq!(node.resolve(&mut scope(vec![])), Ok(num(5)));
}

#[test]
fn map_values_stops_at_the_first_failure() {
    let node = map_values(Value::Array(vec![num(1), num(2), num(4)]), None, AddThenFailOn(2));
    let mut ctx = scope(vec![num(0)]);
    assert_eq!(node.resolve(&mut ctx), Err(Error::Runtime("failed cast".to_string())));
    assert_eq!(ctx.locals, vec![num(3)]);
}

#[test]
fn map_values_fails_inside_a_nested_container() {
    let target = Value::Array(vec![num(1), Value::Array(vec![num(2), num(8)]), num(4)]);
    let mut ctx = scope(vec![num(0)]);
    let closure = FunctionClosure::new(AddThenFailOn(2));
    assert_eq!(
        map_entries(&closure, &mut ctx, target, true),
        Err(Error::Runtime("failed cast".to_string()))
    );
    assert_eq!(ctx.locals, vec![num(3)]);
}

#[test]
fn map_values_wants_a_boolean_flag() {
    let node = map_values(nested(), Some(num(1)), Same);
    assert_eq!(node.resolve(&mut scope(vec![])), Err(Error::UnexpectedKind));
    let node = MapValuesFn {
        value: literal(nested()),
        recursive: Some(Failing),
        closure: FunctionClosure::new(Same),
    };
    assert_eq!(node.resolve(&mut scope(vec![])), Err(Error::Runtime("no target".to_string())));
    let node: MapValuesFn<Failing, Literal, Same> =
        MapValuesFn { value: Failing, recursive: None, closure: FunctionClosure::new(Same) };
    assert_eq!(node.resolve(&mut scope(vec![])), Err(Error::Runtime("no target".to_string())));
}

#[test]
fn map_values_reports_an_object_of_what_the_closure_gives() {
    let node = map_values(Value::Array(vec![num(1)]), None, Same);
    let mut integer = Shapes::none();
    integer.integer = true;
    assert_eq!(node.type_def(), TypeDef { kind: Kind::object(integer), fallible: false });
    let node = map_values(Value::Array(vec![num(1)]), None, Increment);
    assert_eq!(node.type_def(), TypeDef { kind: Kind::object(Shapes::all()), fallible: true });
}

#[test]
fn map_values_describes_itself() {
    assert_eq!(MapValues.identifier(), "map_values");
    let parameters = MapValues.parameters();
    assert_eq!(parameters.len(), 2);
    assert_eq!(parameters[0].keyword, "value");
    assert!(parameters[0].required);
    assert_eq!(parameters[0].kind, Kind::object(Shapes::all()).or_array(Shapes::all()));
    assert_eq!(parameters[1].keyword, "recursive");
    assert!(!parameters[1].required);
    assert_eq!(parameters[1].kind, Kind::boolean());
    let examples = MapValues.examples();
    assert_eq!(examples.len(), 2);
    assert_eq!(examples[0].title, "map object values");
    assert_eq!(
        examples[0].source,
        r#"map_values({ "a": 1, "b": 2 }) -> |value| { value = int!(value) + 1 }"#
    );
    assert_eq!(examples[0].result, Ok(r#"{ "a": 2, "b": 3 }"#));
    assert_eq!(examples[1].title, "recursively map object values");
    assert_eq!(
        examples[1].source,
        r#"map_values({ "a": 1, "b": [{ "c": 2 }, { "d": 3 }], "e": { "f": 4 } }, recursive: true) -> |value| { value = if is_integer(value) { int!(value) + 1 } else { value } }"#
    );
    assert_eq!(
        examples[1].result,
        Ok(r#"{ "a": 2, "b": [{ "c": 3 }, { "d": 4 }], "e": { "f": 5 } }"#)
    );
}

#[test]
fn map_values_declares_its_closure() {
    let definition = MapValues.closure().unwrap();
    assert!(definition.is_iterator);
    assert_eq!(definition.inputs.len(), 1);
    let input = &definition.inputs[0];
    assert_eq!(input.parameter_keyword, "value");
    assert_eq!(input.kind, Kind::object(Shapes::all()).or_array(Shapes::all()));
    assert_eq!(input.variables.len(), 1);
    assert!(matches!(input.variables[0].kind, VariableKind::Exact(kind) if kind == Kind::any()));
    assert!(matches!(input.output, Output::Kind(kind) if kind == Kind::any()));
    assert_eq!(input.example.title, "map object values");
    assert_eq!(
        input.example.source,
        r#"map_values({ "one" : "one", "two": "two" }) -> |value| { upcase!(value) }"#
    );
    assert_eq!(input.example.result, Ok(r#"{ "one": "ONE", "two": "TWO" }"#));
}

#[test]
fn map_values_is_not_available_in_the_vm() {
    let mut ctx = scope(vec![]);
    let mut args = vec![nested()];
    assert_eq!(MapValues.call_by_vm(&mut ctx, &mut args), Err(Error::UnsupportedExecutionMode));
    assert_eq!(args, vec![nested()]);
}

#[test]
fn map_values_compiles_with_and_without_the_flag() {
    let plain = ArgumentList {
        arguments: vec![argument("value", nested(), Kind::object(Shapes::all()))],
        closure: Some(FunctionClosure::new(IncrementIntegers)),
    };
    let node = MapValues.compile(plain).unwrap();
    assert!(node.recursive.is_none());
    assert_eq!(node.value.0, nested());

    let flag_first = ArgumentList {
        arguments: vec![
            argument("recursive", Value::Boolean(true), Kind::boolean()),
            argument("value", nested(), Kind::any()),
        ],
        closure: Some(FunctionClosure::new(IncrementIntegers)),
    };
    let node = MapValues.compile(flag_first).unwrap();
    let expected = object(vec![
        ("a", num(2)),
        ("b", Value::Array(vec![object(vec![("c", num(3))]), object(vec![("d", num(4))])])),
        ("e", object(vec![("f", num(5))])),
    ]);
    assert_eq!(node.resolve(&mut scope(vec![])), Ok(expected));

    let flag_last = ArgumentList {
        arguments: vec![
            argument("value", Value::Array(vec![Value::Array(vec![num(1)])]), Kind::any()),
            argument("recursive", Value::Boolean(true), Kind::boolean()),
        ],
        closure: Some(FunctionClosure::new(IncrementIntegers)),
    };
    let node = MapValues.compile(flag_last).unwrap();
    assert_eq!(
        node.resolve(&mut scope(vec![])),
        Ok(Value::Array(vec![Value::Array(vec![num(2)])]))
    );
}

#[test]
fn map_values_refuses_a_call_that_does_not_fit() {
    let missing: ArgumentList<Literal, Idle> = ArgumentList {
        arguments: vec![argument("recursive", Value::Boolean(true), Kind::boolean())],
        closure: Some(FunctionClosure::new(Idle)),
    };
    assert_eq!(
        MapValues.compile(missing).err(),
        Some(CompileError::MissingArgument("value".to_string()))
    );
    let mismatch: ArgumentList<Literal, Idle> = ArgumentList {
        arguments: vec![argument("value", num(1), Kind::integer_only())],
        closure: Some(FunctionClosure::new(Idle)),
    };
    assert_eq!(
        MapValues.compile(mismatch).err(),
        Some(CompileError::KindMismatch("value".to_string()))
    );
    let flag: ArgumentList<Literal, Idle> = ArgumentList {
        arguments: vec![
            argument("value", nested(), Kind::any()),
            argument("recursive", num(1), Kind::integer_only()),
        ],
        closure: Some(FunctionClosure::new(Idle)),
    };
    assert_eq!(
        MapValues.compile(flag).err(),
        Some(CompileError::KindMismatch("recursive".to_string()))
    );
    let bare: ArgumentList<Literal, Idle> = ArgumentList {
        arguments: vec![argument("value", nested(), Kind::any())],
        closure: None,
    };
    assert_eq!(MapValues.compile(bare).err(), Some(CompileError::MissingClosure));
}

// ---- kinds

#[test]
fn union_lists_what_either_lists() {
    let both = Kind::null().or(Kind::boolean());
    assert!(both.shapes.null && both.shapes.boolean && !both.shapes.integer);
    assert_eq!(Kind::null().or(Kind::null()), Kind::null());
    assert_eq!(Kind::any().or(Kind::null()), Kind::any());
    assert_eq!(Kind::null().or(Kind::boolean()), Kind::boolean().or(Kind::null()));
    assert_eq!(Shapes::none().union(Shapes::all()), Shapes::all());
}

#[test]
fn kinds_intersect_where_they_share_a_variant() {
    assert!(Kind::any().intersects(Kind::null()));
    assert!(!Kind::null().intersects(Kind::boolean()));
    assert!(Kind::array(Shapes::all()).intersects(Kind::object(Shapes::none()).or_array(Shapes::none())));
    assert!(!Shapes::none().intersects(Shapes::all()));
}

#[test]
fn containers_carry_the_kind_of_their_entries() {
    let mut integer = Shapes::none();
    integer.integer = true;
    let array = Kind::array(integer);
    assert!(array.shapes.array && !array.shapes.object);
    assert_eq!(array.array_items, integer);
    assert_eq!(array.object_items, Shapes::none());
    let object = Kind::object(integer);
    assert!(object.shapes.object && !object.shapes.array);
    assert_eq!(object.object_items, integer);
}

#[test]
fn type_def_carries_fallibility() {
    assert!(!TypeDef::null().is_fallible());
    assert!(TypeDef::null().with_fallibility(true).is_fallible());
    assert!(!TypeDef::any().with_fallibility(true).with_fallibility(false).is_fallible());
    assert_eq!(TypeDef::any().kind(), Kind::any());
    assert_eq!(TypeDef::object(Shapes::all()).kind(), Kind::object(Shapes::all()));
}

fn names(functions: &[&dyn Function]) -> Vec<&'static str> {
    functions.iter().map(|f| f.identifier()).collect()
}

#[test]
fn functions_stand_in_one_registry() {
    let registry: [&dyn Function; 2] = [&ForEach, &MapValues];
    assert_eq!(names(&registry), vec!["for_each", "map_values"]);
    assert_eq!(registry[0].parameters().len(), 1);
    assert_eq!(registry[1].parameters().len(), 2);
    for function in registry {
        assert!(function.closure().is_some());
        assert_eq!(function.examples().len(), 2);
        let mut ctx = scope(vec![]);
        let mut args = Vec::new();
        assert_eq!(function.call_by_vm(&mut ctx, &mut args), Err(Error::UnsupportedExecutionMode));
    }
}

/// Appends the value it was run on to the target array and gives it back.
struct RecordValue;

impl Expression for RecordValue {
    fn outcome(&self, _scope: Scope) -> Outcome {
        unreachable!()
    }

    fn static_type(&self) -> TypeDef {
        unreachable!()
    }

    fn resolve(&self, ctx: &mut Context) -> Result<Value, Error> {
        let value = ctx.locals.last().map(Value::duplicate).unwrap_or(Value::Null);
        if let Value::Array(seen) = &mut ctx.target {
            seen.push(value.duplicate());
        }
        Ok(value)
    }

    fn type_def(&self) -> TypeDef {
        TypeDef { kind: Kind::any(), fallible: false }
    }
}

#[test]
fn items_at_the_top_are_the_entries() {
    let items = nested().items(false);
    assert_eq!(items.len(), 3);
    assert_eq!(items[0], IterItem::KeyValue("a".to_string(), num(1)));
    assert_eq!(
        items[2],
        IterItem::KeyValue("e".to_string(), object(vec![("f", num(4))]))
    );
    assert_eq!(num(1).items(true), Vec::new());
}

#[test]
fn items_at_every_depth_come_depth_first() {
    let items = nested().items(true);
    let expected = vec![
        IterItem::KeyValue("a".to_string(), num(1)),
        IterItem::KeyValue("c".to_string(), num(2)),
        IterItem::IndexValue(0, object(vec![("c", num(2))])),
        IterItem::KeyValue("d".to_string(), num(3)),
        IterItem::IndexValue(1, object(vec![("d", num(3))])),
        IterItem::KeyValue(
            "b".to_string(),
            Value::Array(vec![object(vec![("c", num(2))]), object(vec![("d", num(3))])]),
        ),
        IterItem::KeyValue("f".to_string(), num(4)),
        IterItem::KeyValue("e".to_string(), object(vec![("f", num(4))])),
    ];
    assert_eq!(items, expected);
}

#[test]
fn recursive_mapping_runs_on_each_item_once_leaves_first() {
    let node = map_values(nested(), Some(Value::Boolean(true)), RecordValue);
    let mut ctx = Context { target: Value::Array(Vec::new()), locals: Vec::new() };
    assert_eq!(node.resolve(&mut ctx), Ok(nested()));
    let expected: Vec<Value> = nested().items(true).into_iter().map(IterItem::into_value).collect();
    assert_eq!(expected.len(), 8);
    assert_eq!(ctx.target, Value::Array(expected));
}

#[test]
fn keys_are_checked_at_every_depth() {
    assert!(nested().is_well_formed());
    assert!(num(1).is_well_formed());
    assert!(Value::Array(vec![num(1), num(1)]).is_well_formed());
    assert!(object(vec![]).is_well_formed());
    assert!(!object(vec![("a", num(1)), ("b", num(2)), ("a", num(3))]).is_well_formed());
    assert!(!object(vec![("a", num(1)), ("a", num(1))]).is_well_formed());
    let deep = object(vec![("x", Value::Array(vec![object(vec![("k", num(1)), ("k", num(2))])]))]);
    assert!(!deep.is_well_formed());
    let apart = object(vec![("k", object(vec![("k", num(1))])), ("j", object(vec![("k", num(2))]))]);
    assert!(apart.is_well_formed());
}

#[test]
fn mapping_keeps_the_keys() {
    let target = object(vec![("z", num(1)), ("a", num(2))]);
    let node = map_values(target, None, Increment);
    let mapped = node.resolve(&mut scope(vec![])).unwrap();
    assert_eq!(mapped, object(vec![("z", num(2)), ("a", num(3))]));
    assert!(mapped.is_well_formed());
}

/// Fails with the given message after leaving a mark in the scope.
struct MarkThenFail(&'static str);

impl Expression for MarkThenFail {
    fn outcome(&self, _scope: Scope) -> Outcome {
        unreachable!()
    }

    fn static_type(&self) -> TypeDef {
        unreachable!()
    }

    fn resolve(&self, ctx: &mut Context) -> Result<Value, Error> {
        ctx.locals.push(Value::Bytes(self.0.as_bytes().to_vec()));
        Err(Error::Runtime(self.0.to_string()))
    }

    fn type_def(&self) -> TypeDef {
        TypeDef { kind: Kind::any(), fallible: true }
    }
}

#[test]
fn map_values_evaluates_its_target_before_its_flag() {
    let node = MapValuesFn {
        value: MarkThenFail("target"),
        recursive: Some(MarkThenFail("flag")),
        closure: FunctionClosure::new(Same),
    };
    let mut ctx = scope(vec![]);
    assert_eq!(node.resolve(&mut ctx), Err(Error::Runtime("target".to_string())));
    assert_eq!(ctx.locals, vec![Value::Bytes(b"target".to_vec())]);
}

#[test]
fn map_values_evaluates_its_flag_after_its_target() {
    let node = MapValuesFn {
        value: literal(nested()),
        recursive: Some(MarkThenFail("flag")),
        closure: FunctionClosure::new(RecordValue),
    };
    let mut ctx = Context { target: Value::Array(Vec::new()), locals: Vec::new() };
    assert_eq!(node.resolve(&mut ctx), Err(Error::Runtime("flag".to_string())));
    assert_eq!(ctx.locals, vec![Value::Bytes(b"flag".to_vec())]);
    assert_eq!(ctx.target, Value::Array(Vec::new()));
}

#[test]
fn for_each_asks_for_the_closure_before_it_looks_at_kinds() {
    let bare_mismatch: ArgumentList<Literal, Idle> = ArgumentList {
        arguments: vec![argument("value", Value::Null, Kind::null())],
        closure: None,
    };
    assert_eq!(ForEach.compile(bare_mismatch).err(), Some(CompileError::MissingClosure));
    let nothing: ArgumentList<Literal, Idle> =
        ArgumentList { arguments: Vec::new(), closure: None };
    assert_eq!(
        ForEach.compile(nothing).err(),
        Some(CompileError::MissingArgument("value".to_string()))
    );
}

#[test]
fn map_values_asks_for_the_closure_before_it_looks_at_kinds() {
    let value_mismatch: ArgumentList<Literal, Idle> = ArgumentList {
        arguments: vec![argument("value", num(1), Kind::integer_only())],
        closure: None,
    };
    assert_eq!(MapValues.compile(value_mismatch).err(), Some(CompileError::MissingClosure));
    let flag_mismatch: ArgumentList<Literal, Idle> = ArgumentList {
        arguments: vec![
            argument("value", nested(), Kind::any()),
            argument("recursive", num(1), Kind::integer_only()),
        ],
        closure: None,
    };
    assert_eq!(MapValues.compile(flag_mismatch).err(), Some(CompileError::MissingClosure));
    let both_mismatch: ArgumentList<Literal, Idle> = ArgumentList {
        arguments: vec![
            argument("recursive", num(1), Kind::integer_only()),
            argument("value", num(1), Kind::integer_only()),
        ],
        closure: Some(FunctionClosure::new(Idle)),
    };
    assert_eq!(
        MapValues.compile(both_mismatch).err(),
        Some(CompileError::KindMismatch("value".to_string()))
    );
    let nothing: ArgumentList<Literal, Idle> = ArgumentList {
        arguments: vec![argument("recursive", Value::Boolean(true), Kind::boolean())],
        closure: None,
    };
    assert_eq!(
        MapValues.compile(nothing).err(),
        Some(CompileError::MissingArgument("value".to_string()))
    );
}

#[test]
fn recursive_traversal_hands_out_the_entries_and_asks_to_descend() {
    let mut iter = nested().into_iter(true);
    let first = iter.next().unwrap();
    assert_eq!(first, IterItem::KeyValue("a".to_string(), num(1)));
    assert!(!iter.descends(&first.into_value()));
    let second = iter.next().unwrap().into_value();
    assert_eq!(
        second,
        Value::Array(vec![object(vec![("c", num(2))]), object(vec![("d", num(3))])])
    );
    assert!(iter.descends(&second));
    let third = iter.next().unwrap();
    assert_eq!(third, IterItem::KeyValue("e".to_string(), object(vec![("f", num(4))])));
    assert_eq!(iter.next(), None);

    let flat = nested().into_iter(false);
    assert!(!flat.descends(&second));
    assert!(!flat.is_recursive());
}
