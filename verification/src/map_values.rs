//! `map_values`: replaces each entry's value by what a closure makes of it,
//! at the top level or at every depth.

use crate::expression::{
    CompileError, Context, Error, Expression, FunctionClosure, Outcome, Scope,
};
use crate::for_each::container_kind;
use crate::iter::{deep_prefix, item_at, ItemView};
use crate::function::{
    check_argument, ArgumentCheck, ArgumentList, Definition, Example, Function, Input, Output,
    Parameter, Variable, VariableKind,
};
use crate::kind::{Kind, Shapes, TypeDef};
use crate::value::{
    slot_is_smaller, slot_is_well_formed, slot_rewritten_is_same, slot_write_keeps_keys_unique,
    Value, ValueView,
};
use vstd::prelude::*;

verus! {

/// The function `map_values`.
#[derive(Clone, Copy, Debug)]
pub struct MapValues;

impl MapValues {
    /// Turns a call site into a node: the first argument named `value`,
    /// which has to be able to be an object or an array; the first named
    /// `recursive`, if there is one, which has to be able to be a boolean;
    /// and the closure. A call without `value` is refused for that, one
    /// without a closure for that, and only then are the kinds held against
    /// the parameters, `value` first.
    pub fn compile<E: Expression, B: Expression>(&self, arguments: ArgumentList<E, B>) -> (r:
        Result<MapValuesFn<E, E, B>, CompileError>)
        ensures
            match check_argument(arguments.arguments@, "value"@, container_kind()) {
                ArgumentCheck::Absent => r is Err && r->Err_0 is MissingArgument
                    && r->Err_0->MissingArgument_0@ == "value"@,
                ArgumentCheck::Mismatch => match arguments.closure {
                    None => r is Err && r->Err_0 is MissingClosure,
                    Some(_) => r is Err && r->Err_0 is KindMismatch
                        && r->Err_0->KindMismatch_0@ == "value"@,
                },
                ArgumentCheck::Fits(i) => match arguments.closure {
                    None => r is Err && r->Err_0 is MissingClosure,
                    Some(closure) => match check_argument(
                        arguments.arguments@,
                        "recursive"@,
                        Kind::spec_boolean(),
                    ) {
                        ArgumentCheck::Mismatch => r is Err && r->Err_0 is KindMismatch
                            && r->Err_0->KindMismatch_0@ == "recursive"@,
                        ArgumentCheck::Absent => r is Ok && r->Ok_0.value
                            == arguments.arguments[i].expression && r->Ok_0.recursive is None
                            && r->Ok_0.closure == closure,
                        ArgumentCheck::Fits(j) => r is Ok && r->Ok_0.value
                            == arguments.arguments[i].expression && r->Ok_0.recursive == Some(
                            arguments.arguments[j].expression,
                        ) && r->Ok_0.closure == closure,
                    },
                },
            },
    {
        let mut arguments = arguments;
        let i = match arguments.find("value") {
            None => {
                return Err(CompileError::MissingArgument("value".to_owned()));
            },
            Some(i) => i,
        };
        if arguments.closure.is_none() {
            return Err(CompileError::MissingClosure);
        }
        let wanted = Kind::object(Shapes::all()).or_array(Shapes::all());
        if !arguments.fits(i, wanted) {
            return Err(CompileError::KindMismatch("value".to_owned()));
        }
        let flag = arguments.find("recursive");
        let (value, recursive) = match flag {
            None => (arguments.arguments.remove(i).expression, None),
            Some(j) => {
                if !arguments.fits(j, Kind::boolean()) {
                    return Err(CompileError::KindMismatch("recursive".to_owned()));
                }
                proof {
                    reveal_strlit("value");
                    reveal_strlit("recursive");
                    assert("value"@.len() != "recursive"@.len());
                }
                if j > i {
                    let second = arguments.arguments.remove(j);
                    let first = arguments.arguments.remove(i);
                    (first.expression, Some(second.expression))
                } else {
                    let first = arguments.arguments.remove(i);
                    let second = arguments.arguments.remove(j);
                    (first.expression, Some(second.expression))
                }
            },
        };
        match arguments.required_closure() {
            Err(e) => Err(e),
            Ok(closure) => Ok(MapValuesFn { value, recursive, closure }),
        }
    }
}

impl Function for MapValues {
    fn identifier(&self) -> (r: &'static str)
        ensures
            r@ == "map_values"@,
    {
        "map_values"
    }

    /// The required target, an object or array, and the optional boolean
    /// that asks for every depth.
    fn parameters(&self) -> (r: Vec<Parameter>)
        ensures
            r@.len() == 2,
            r[0].keyword@ == "value"@,
            r[0].kind == container_kind(),
            r[0].required,
            r[1].keyword@ == "recursive"@,
            r[1].kind == Kind::spec_boolean(),
            !r[1].required,
    {
        let mut out: Vec<Parameter> = Vec::new();
        out.push(
            Parameter {
                keyword: "value",
                kind: Kind::object(Shapes::all()).or_array(Shapes::all()),
                required: true,
            },
        );
        out.push(Parameter { keyword: "recursive", kind: Kind::boolean(), required: false });
        out
    }

    fn examples(&self) -> (r: Vec<Example>)
        ensures
            r@.len() == 2,
            r[0].title@ == "map object values"@,
            r[0].source@
                == "map_values({ \"a\": 1, \"b\": 2 }) -> |value| { value = int!(value) + 1 }"@,
            r[0].result is Ok && r[0].result->Ok_0@ == "{ \"a\": 2, \"b\": 3 }"@,
            r[1].title@ == "recursively map object values"@,
            r[1].source@
                == "map_values({ \"a\": 1, \"b\": [{ \"c\": 2 }, { \"d\": 3 }], \"e\": { \"f\": 4 } }, recursive: true) -> |value| { value = if is_integer(value) { int!(value) + 1 } else { value } }"@,
            r[1].result is Ok && r[1].result->Ok_0@
                == "{ \"a\": 2, \"b\": [{ \"c\": 3 }, { \"d\": 4 }], \"e\": { \"f\": 5 } }"@,
    {
        let mut out: Vec<Example> = Vec::new();
        out.push(
            Example {
                title: "map object values",
                source: "map_values({ \"a\": 1, \"b\": 2 }) -> |value| { value = int!(value) + 1 }",
                result: Ok("{ \"a\": 2, \"b\": 3 }"),
            },
        );
        out.push(
            Example {
                title: "recursively map object values",
                source: "map_values({ \"a\": 1, \"b\": [{ \"c\": 2 }, { \"d\": 3 }], \"e\": { \"f\": 4 } }, recursive: true) -> |value| { value = if is_integer(value) { int!(value) + 1 } else { value } }",
                result: Ok("{ \"a\": 2, \"b\": [{ \"c\": 3 }, { \"d\": 4 }], \"e\": { \"f\": 5 } }"),
            },
        );
        out
    }

    /// The closure that `map_values` takes: it runs once per entry, with the
    /// entry's value, and may produce anything.
    fn closure(&self) -> (r: Option<Definition>)
        ensures
            r is Some,
            r->Some_0.is_iterator,
            r->Some_0.inputs@.len() == 1,
            r->Some_0.inputs[0].parameter_keyword@ == "value"@,
            r->Some_0.inputs[0].kind == container_kind(),
            r->Some_0.inputs[0].variables@.len() == 1,
            r->Some_0.inputs[0].variables[0].kind == VariableKind::Exact(Kind::spec_any()),
            r->Some_0.inputs[0].output == Output::Kind(Kind::spec_any()),
            r->Some_0.inputs[0].example.title@ == "map object values"@,
            r->Some_0.inputs[0].example.source@
                == "map_values({ \"one\" : \"one\", \"two\": \"two\" }) -> |value| { upcase!(value) }"@,
            r->Some_0.inputs[0].example.result is Ok,
            r->Some_0.inputs[0].example.result->Ok_0@ == "{ \"one\": \"ONE\", \"two\": \"TWO\" }"@,
    {
        let mut variables: Vec<Variable> = Vec::new();
        variables.push(Variable { kind: VariableKind::Exact(Kind::any()) });
        let mut inputs: Vec<Input> = Vec::new();
        inputs.push(
            Input {
                parameter_keyword: "value",
                kind: Kind::object(Shapes::all()).or_array(Shapes::all()),
                variables,
                output: Output::Kind(Kind::any()),
                example: Example {
                    title: "map object values",
                    source: "map_values({ \"one\" : \"one\", \"two\": \"two\" }) -> |value| { upcase!(value) }",
                    result: Ok("{ \"one\": \"ONE\", \"two\": \"TWO\" }"),
                },
            },
        );
        Some(Definition { inputs, is_iterator: true })
    }

    /// The virtual machine cannot run this function: every call fails, and
    /// touches nothing.
    fn call_by_vm(&self, ctx: &mut Context, args: &mut Vec<Value>) -> (r: Result<Value, Error>)
        ensures
            r is Err,
            r->Err_0 is UnsupportedExecutionMode,
            *final(ctx) == *old(ctx),
            *final(args) == *old(args),
    {
        Err(Error::UnsupportedExecutionMode)
    }
}

/// How far a mapping has come: the scope by now, the container with the
/// slots mapped so far replaced, and the failure that stopped it, if any.
pub struct Progress {
    pub scope: Scope,
    pub value: ValueView,
    pub failure: Option<Error>,
}

/// Mapping one slot. In a recursive mapping a container's own entries are
/// mapped first, and the closure then runs on the container rebuilt from
/// them; anything else goes to the closure as it is.
pub open spec fn map_slot<B: Expression>(
    closure: FunctionClosure<B>,
    scope: Scope,
    value: ValueView,
    recursive: bool,
) -> Outcome
    decreases value, value.entry_count() + 1,
{
    if recursive && value.is_container() {
        let inner = map_prefix(closure, scope, value, recursive, value.entry_count());
        match inner.failure {
            Some(e) => Outcome { scope: inner.scope, result: Err(e) },
            None => closure.map_outcome(inner.scope, inner.value),
        }
    } else {
        closure.map_outcome(scope, value)
    }
}

/// Mapping the first `n` slots of `container`, in order, stopping at the
/// first failure.
pub open spec fn map_prefix<B: Expression>(
    closure: FunctionClosure<B>,
    scope: Scope,
    container: ValueView,
    recursive: bool,
    n: nat,
) -> Progress
    decreases container, n,
{
    if n == 0 || n > container.entry_count() {
        Progress { scope, value: container, failure: None }
    } else {
        let before = map_prefix(closure, scope, container, recursive, (n - 1) as nat);
        if before.failure is Some {
            before
        } else {
            let out = map_slot(closure, before.scope, container.slot(n - 1), recursive);
            match out.result {
                Ok(v) => Progress {
                    scope: out.scope,
                    value: before.value.with_slot(n - 1, v),
                    failure: None,
                },
                Err(e) => Progress { scope: out.scope, value: before.value, failure: Some(e) },
            }
        }
    }
}

/// Mapping every slot of `target`. A scalar has no slot and stays as it is.
pub open spec fn map_all<B: Expression>(
    closure: FunctionClosure<B>,
    scope: Scope,
    target: ValueView,
    recursive: bool,
) -> Progress {
    map_prefix(closure, scope, target, recursive, target.entry_count())
}

/// What the optional flag resolves to: `false` where it is absent, the
/// boolean it evaluates to, or the failure of evaluating it or of finding
/// something else than a boolean.
pub open spec fn flag_outcome<R: Expression>(flag: Option<R>, scope: Scope) -> (Scope, Result<
    bool,
    Error,
>) {
    match flag {
        None => (scope, Ok(false)),
        Some(expr) => {
            let out = expr.outcome(scope);
            (
                out.scope,
                match out.result {
                    Ok(ValueView::Boolean(b)) => Ok(b),
                    Ok(_) => Err(Error::UnexpectedKind),
                    Err(e) => Err(e),
                },
            )
        },
    }
}

/// However far a mapping has come, the container keeps its variant, its
/// number of entries and its keys, and the slots not yet reached hold what
/// they held.
pub proof fn mapping_keeps_shape<B: Expression>(
    closure: FunctionClosure<B>,
    scope: Scope,
    container: ValueView,
    recursive: bool,
    n: nat,
)
    requires
        n <= container.entry_count(),
    ensures
        ({
            let now = map_prefix(closure, scope, container, recursive, n).value;
            &&& now.entry_count() == container.entry_count()
            &&& now is Array <==> container is Array
            &&& now is Object <==> container is Object
            &&& now.keys() =~= container.keys()
            &&& forall|j: int| n <= j < container.entry_count() ==> now.slot(j) == container.slot(j)
        }),
    decreases n,
{
    if n > 0 {
        mapping_keeps_shape(closure, scope, container, recursive, (n - 1) as nat);
    }
}

/// Once a slot has failed, nothing after it counts.
pub proof fn mapping_stops_at_failure<B: Expression>(
    closure: FunctionClosure<B>,
    scope: Scope,
    container: ValueView,
    recursive: bool,
    n: nat,
    m: nat,
)
    requires
        n <= m <= container.entry_count(),
        map_prefix(closure, scope, container, recursive, n).failure is Some,
    ensures
        map_prefix(closure, scope, container, recursive, m) == map_prefix(
            closure,
            scope,
            container,
            recursive,
            n,
        ),
    decreases m,
{
    if n < m {
        mapping_stops_at_failure(closure, scope, container, recursive, n, (m - 1) as nat);
    }
}

/// Maps every slot of `target` and gives the rebuilt value, or the first
/// failure.
pub fn map_entries<B: Expression>(
    closure: &FunctionClosure<B>,
    ctx: &mut Context,
    target: Value,
    recursive: bool,
) -> (r: Result<Value, Error>)
    ensures
        final(ctx)@ == map_all(*closure, old(ctx)@, target@, recursive).scope,
        match r {
            Ok(v) => map_all(*closure, old(ctx)@, target@, recursive).failure is None && v@
                == map_all(*closure, old(ctx)@, target@, recursive).value,
            Err(e) => map_all(*closure, old(ctx)@, target@, recursive).failure == Some(e),
        },
    decreases target@,
{
    let ghost start = ctx@;
    let ghost whole = target@;
    let mut iter = target.into_iter(recursive);
    loop
        invariant
            start == old(ctx)@,
            whole == target@,
            iter@.recursive == recursive,
            iter@.position <= whole.entry_count(),
            iter@.value == map_prefix(*closure, start, whole, recursive, iter@.position).value,
            ctx@ == map_prefix(*closure, start, whole, recursive, iter@.position).scope,
            map_prefix(*closure, start, whole, recursive, iter@.position).failure is None,
        ensures
            iter@.position == whole.entry_count(),
            iter@.value == map_prefix(*closure, start, whole, recursive, iter@.position).value,
            ctx@ == map_prefix(*closure, start, whole, recursive, iter@.position).scope,
            map_prefix(*closure, start, whole, recursive, iter@.position).failure is None,
        decreases whole.entry_count() - iter@.position,
    {
        let ghost done = iter@.position;
        proof {
            mapping_keeps_shape(*closure, start, whole, recursive, done);
        }
        match iter.next() {
            None => {
                break ;
            },
            Some(item) => {
                let mut slot = item.into_value();
                assert(slot@ == whole.slot(done as int));
                let ghost step = map_slot(*closure, ctx@, slot@, recursive);
                if iter.descends(&slot) {
                    assert(decreases_to!(whole => slot@)) by {
                        slot_is_smaller(whole, done as int);
                    }
                    match map_entries(closure, ctx, slot, recursive) {
                        Ok(rebuilt) => {
                            slot = rebuilt;
                        },
                        Err(e) => {
                            proof {
                                mapping_stops_at_failure(
                                    *closure,
                                    start,
                                    whole,
                                    recursive,
                                    done + 1,
                                    whole.entry_count(),
                                );
                            }
                            return Err(e);
                        },
                    }
                }
                match closure.map_value(ctx, &mut slot) {
                    Ok(_) => {},
                    Err(e) => {
                        proof {
                            mapping_stops_at_failure(
                                *closure,
                                start,
                                whole,
                                recursive,
                                done + 1,
                                whole.entry_count(),
                            );
                        }
                        return Err(e);
                    },
                }
                assert(step.result == Ok::<ValueView, Error>(slot@));
                iter.write_back(slot);
            },
        }
    }
    Ok(iter.into_value())
}

/// Whether the closure gives every value back as it got it, never fails and
/// leaves the scope as it found it.
pub open spec fn is_identity<B: Expression>(closure: FunctionClosure<B>) -> bool {
    forall|s: Scope, v: ValueView| #[trigger]
        closure.map_outcome(s, v) == (Outcome { scope: s, result: Ok(v) })
}

/// A block that returns its innermost binding and touches nothing makes an
/// identity closure.
pub proof fn returning_the_binding_is_identity<B: Expression>(closure: FunctionClosure<B>)
    requires
        forall|s: Scope|
            s.locals.len() > 0 ==> #[trigger] closure.block.outcome(s) == (Outcome {
                scope: s,
                result: Ok(s.locals.last()),
            }),
    ensures
        is_identity(closure),
{
    assert forall|s: Scope, v: ValueView| #[trigger]
        closure.map_outcome(s, v) == (Outcome { scope: s, result: Ok(v) }) by {
        let bound = s.bind(v);
        assert(bound.locals.len() > 0);
        assert(bound.unbind(1).locals =~= s.locals);
        assert(bound.unbind(1) == s);
    }
}

/// Mapping with an identity closure, at the top level or at every depth,
/// gives the value that went in and leaves the scope as it was.
pub proof fn identity_closure_rebuilds_input<B: Expression>(
    closure: FunctionClosure<B>,
    scope: Scope,
    container: ValueView,
    recursive: bool,
    n: nat,
)
    requires
        n <= container.entry_count(),
        is_identity(closure),
    ensures
        map_prefix(closure, scope, container, recursive, n) == (Progress {
            scope,
            value: container,
            failure: None,
        }),
    decreases container, n,
{
    if n > 0 {
        identity_closure_rebuilds_input(closure, scope, container, recursive, (n - 1) as nat);
        let slot = container.slot(n - 1);
        if recursive && slot.is_container() {
            slot_is_smaller(container, n - 1);
            identity_closure_rebuilds_input(closure, scope, slot, recursive, slot.entry_count());
        }
        slot_rewritten_is_same(container, n - 1);
        assert(closure.map_outcome(scope, slot) == (Outcome { scope, result: Ok(slot) }));
        assert(map_slot(closure, scope, slot, recursive) == (Outcome { scope, result: Ok(slot) }));
    }
}

/// The value with every scalar below it replaced by what `f` makes of it;
/// a scalar itself is replaced too. Containers keep their places.
pub open spec fn with_leaves(f: spec_fn(ValueView) -> ValueView, value: ValueView) -> ValueView
    decreases value, value.entry_count() + 1,
{
    if value.is_container() {
        leaves_prefix(f, value, value.entry_count())
    } else {
        f(value)
    }
}

/// The container with the scalars below its first `n` slots replaced.
pub open spec fn leaves_prefix(
    f: spec_fn(ValueView) -> ValueView,
    container: ValueView,
    n: nat,
) -> ValueView
    decreases container, n,
{
    if n == 0 || n > container.entry_count() {
        container
    } else {
        leaves_prefix(f, container, (n - 1) as nat).with_slot(
            n - 1,
            with_leaves(f, container.slot(n - 1)),
        )
    }
}

/// Whether the closure is `f` on scalars and the identity on containers,
/// never fails and leaves the scope as it found it.
pub open spec fn maps_leaves_by<B: Expression>(
    closure: FunctionClosure<B>,
    f: spec_fn(ValueView) -> ValueView,
) -> bool {
    forall|s: Scope, v: ValueView| #[trigger]
        closure.map_outcome(s, v) == (Outcome {
            scope: s,
            result: Ok(
                if v.is_container() {
                    v
                } else {
                    f(v)
                },
            ),
        })
}

/// A recursive mapping with a closure that is `f` on scalars and leaves
/// containers alone replaces each scalar at every depth by `f` of it, once,
/// and keeps every container in its place.
pub proof fn recursive_mapping_replaces_leaves<B: Expression>(
    closure: FunctionClosure<B>,
    f: spec_fn(ValueView) -> ValueView,
    scope: Scope,
    container: ValueView,
    n: nat,
)
    requires
        n <= container.entry_count(),
        maps_leaves_by(closure, f),
    ensures
        map_prefix(closure, scope, container, true, n) == (Progress {
            scope,
            value: leaves_prefix(f, container, n),
            failure: None,
        }),
    decreases container, n,
{
    if n > 0 {
        recursive_mapping_replaces_leaves(closure, f, scope, container, (n - 1) as nat);
        let slot = container.slot(n - 1);
        if slot.is_container() {
            slot_is_smaller(container, n - 1);
            recursive_mapping_replaces_leaves(closure, f, scope, slot, slot.entry_count());
            leaves_keep_shape(f, slot, slot.entry_count());
            let rebuilt = leaves_prefix(f, slot, slot.entry_count());
            assert(rebuilt.is_container());
            assert(closure.map_outcome(scope, rebuilt) == (Outcome { scope, result: Ok(rebuilt) }));
        } else {
            assert(closure.map_outcome(scope, slot) == (Outcome { scope, result: Ok(f(slot)) }));
        }
        assert(map_slot(closure, scope, slot, true) == (Outcome {
            scope,
            result: Ok(with_leaves(f, slot)),
        }));
    }
}

/// Replacing leaves keeps a container's variant, number of entries and keys.
pub proof fn leaves_keep_shape(f: spec_fn(ValueView) -> ValueView, container: ValueView, n: nat)
    requires
        n <= container.entry_count(),
    ensures
        ({
            let now = leaves_prefix(f, container, n);
            &&& now.entry_count() == container.entry_count()
            &&& now is Array <==> container is Array
            &&& now is Object <==> container is Object
            &&& now.keys() =~= container.keys()
        }),
    decreases n,
{
    if n > 0 {
        leaves_keep_shape(f, container, (n - 1) as nat);
    }
}

/// The compiled call: the target expression, the optional flag that asks
/// for every depth, and the closure to map with. The target is evaluated
/// first, the flag after it.
#[derive(Debug)]
pub struct MapValuesFn<E, R, B> {
    pub value: E,
    pub recursive: Option<R>,
    pub closure: FunctionClosure<B>,
}

impl<E: Expression, R: Expression, B: Expression> Expression for MapValuesFn<E, R, B> {
    open spec fn outcome(&self, scope: Scope) -> Outcome {
        let target = self.value.outcome(scope);
        match target.result {
            Err(e) => Outcome { scope: target.scope, result: Err(e) },
            Ok(v) => {
                let flag = flag_outcome(self.recursive, target.scope);
                match flag.1 {
                    Err(e) => Outcome { scope: flag.0, result: Err(e) },
                    Ok(recursive) => {
                        let mapped = map_all(self.closure, flag.0, v, recursive);
                        Outcome {
                            scope: mapped.scope,
                            result: match mapped.failure {
                                Some(e) => Err(e),
                                None => Ok(mapped.value),
                            },
                        }
                    },
                }
            },
        }
    }

    open spec fn static_type(&self) -> TypeDef {
        TypeDef {
            kind: Kind::spec_object(self.closure.block.static_type().kind.shapes),
            fallible: self.closure.block.static_type().fallible,
        }
    }

    fn resolve(&self, ctx: &mut Context) -> (r: Result<Value, Error>) {
        let target = match self.value.resolve(ctx) {
            Err(e) => {
                return Err(e);
            },
            Ok(target) => target,
        };
        let recursive = match &self.recursive {
            None => false,
            Some(expr) => match expr.resolve(ctx) {
                Err(e) => {
                    return Err(e);
                },
                Ok(Value::Boolean(b)) => b,
                Ok(_) => {
                    return Err(Error::UnexpectedKind);
                },
            },
        };
        map_entries(&self.closure, ctx, target, recursive)
    }

    fn type_def(&self) -> (t: TypeDef) {
        let type_def = self.closure.type_def();
        TypeDef::object(type_def.kind().shapes).with_fallibility(type_def.is_fallible())
    }
}

/// A `map_values` with an identity closure, whose target and flag both
/// evaluate, evaluates to what its target evaluates to, whether or not it
/// is asked to go to every depth, in the scope that the flag's evaluation
/// left.
pub proof fn identity_map_values_gives_target<E: Expression, R: Expression, B: Expression>(
    node: MapValuesFn<E, R, B>,
    scope: Scope,
)
    requires
        is_identity(node.closure),
        node.value.outcome(scope).result is Ok,
        flag_outcome(node.recursive, node.value.outcome(scope).scope).1 is Ok,
    ensures
        node.outcome(scope) == (Outcome {
            scope: flag_outcome(node.recursive, node.value.outcome(scope).scope).0,
            result: node.value.outcome(scope).result,
        }),
{
    let target = node.value.outcome(scope);
    let flag = flag_outcome(node.recursive, target.scope);
    let v = target.result->Ok_0;
    identity_closure_rebuilds_input(node.closure, flag.0, v, flag.1->Ok_0, v.entry_count());
}

/// Where the target of a `map_values` fails, that failure is the result,
/// in the scope the target left: the flag is not evaluated and the closure
/// is not run.
pub proof fn failing_target_comes_first<E: Expression, R: Expression, B: Expression>(
    node: MapValuesFn<E, R, B>,
    scope: Scope,
)
    requires
        node.value.outcome(scope).result is Err,
    ensures
        node.outcome(scope) == node.value.outcome(scope),
{
}

/// Where the closure never turns a value without duplicate keys into one
/// with them, mapping keeps the keys of every object unique, at any depth
/// and however far it has come.
pub proof fn mapping_keeps_keys_unique<B: Expression>(
    closure: FunctionClosure<B>,
    scope: Scope,
    container: ValueView,
    recursive: bool,
    n: nat,
)
    requires
        n <= container.entry_count(),
        container.well_formed(),
        forall|s: Scope, v: ValueView|
            v.well_formed() && (#[trigger] closure.map_outcome(s, v)).result is Ok
                ==> closure.map_outcome(s, v).result->Ok_0.well_formed(),
    ensures
        map_prefix(closure, scope, container, recursive, n).value.well_formed(),
    decreases container, n,
{
    if n > 0 {
        mapping_keeps_keys_unique(closure, scope, container, recursive, (n - 1) as nat);
        mapping_keeps_shape(closure, scope, container, recursive, (n - 1) as nat);
        let before = map_prefix(closure, scope, container, recursive, (n - 1) as nat);
        let slot = container.slot(n - 1);
        slot_is_well_formed(container, n - 1);
        if before.failure is None {
            if recursive && slot.is_container() {
                slot_is_smaller(container, n - 1);
                mapping_keeps_keys_unique(
                    closure,
                    before.scope,
                    slot,
                    recursive,
                    slot.entry_count(),
                );
            }
            let out = map_slot(closure, before.scope, slot, recursive);
            if out.result is Ok {
                slot_write_keeps_keys_unique(before.value, n - 1, out.result->Ok_0);
            }
        }
    }
}

/// The values that the closure was run on while one slot was mapped, in
/// the order of the runs.
pub open spec fn slot_inputs<B: Expression>(
    closure: FunctionClosure<B>,
    scope: Scope,
    value: ValueView,
    recursive: bool,
) -> Seq<ValueView>
    decreases value, value.entry_count() + 1,
{
    if recursive && value.is_container() {
        let inner = map_prefix(closure, scope, value, recursive, value.entry_count());
        let below = inputs_prefix(closure, scope, value, recursive, value.entry_count());
        if inner.failure is Some {
            below
        } else {
            below.push(inner.value)
        }
    } else {
        seq![value]
    }
}

/// The values that the closure was run on while the first `n` slots of
/// `container` were mapped, in the order of the runs.
pub open spec fn inputs_prefix<B: Expression>(
    closure: FunctionClosure<B>,
    scope: Scope,
    container: ValueView,
    recursive: bool,
    n: nat,
) -> Seq<ValueView>
    decreases container, n,
{
    if n == 0 || n > container.entry_count() {
        Seq::empty()
    } else {
        let before = map_prefix(closure, scope, container, recursive, (n - 1) as nat);
        let seen = inputs_prefix(closure, scope, container, recursive, (n - 1) as nat);
        if before.failure is Some {
            seen
        } else {
            seen + slot_inputs(closure, before.scope, container.slot(n - 1), recursive)
        }
    }
}

/// With a closure that never fails, a mapping does not fail, and the
/// closure is run once for each item of the traversal: once per entry, and
/// in a recursive mapping once per entry at every depth.
pub proof fn unfailing_mapping_runs_once_per_item<B: Expression>(
    closure: FunctionClosure<B>,
    scope: Scope,
    container: ValueView,
    recursive: bool,
    n: nat,
)
    requires
        n <= container.entry_count(),
        forall|s: Scope| (#[trigger] closure.block.outcome(s)).result is Ok,
    ensures
        map_prefix(closure, scope, container, recursive, n).failure is None,
        inputs_prefix(closure, scope, container, recursive, n).len() == deep_prefix(
            container,
            recursive,
            n,
        ).len(),
    decreases container, n,
{
    if n > 0 {
        unfailing_mapping_runs_once_per_item(closure, scope, container, recursive, (n - 1) as nat);
        let before = map_prefix(closure, scope, container, recursive, (n - 1) as nat);
        let slot = container.slot(n - 1);
        if recursive && slot.is_container() {
            slot_is_smaller(container, n - 1);
            unfailing_mapping_runs_once_per_item(
                closure,
                before.scope,
                slot,
                recursive,
                slot.entry_count(),
            );
            let inner = map_prefix(closure, before.scope, slot, recursive, slot.entry_count());
            assert(closure.map_outcome(inner.scope, inner.value).result is Ok);
        } else {
            assert(closure.map_outcome(before.scope, slot).result is Ok);
        }
        assert(map_slot(closure, before.scope, slot, recursive).result is Ok);
        let fresh = slot_inputs(closure, before.scope, slot, recursive);
        let below = if recursive && slot.is_container() {
            deep_prefix(slot, recursive, slot.entry_count())
        } else {
            Seq::empty()
        };
        assert(fresh.len() == below.len() + 1);
        assert(inputs_prefix(closure, scope, container, recursive, n) == inputs_prefix(
            closure,
            scope,
            container,
            recursive,
            (n - 1) as nat,
        ) + fresh);
        assert(deep_prefix(container, recursive, n) == (deep_prefix(
            container,
            recursive,
            (n - 1) as nat,
        ) + below).push(item_at(container, n - 1)));
    }
}

/// What the closure gets for an item when it replaces leaves by `f` and
/// leaves containers alone: a scalar as it stands in the input, a container
/// with the leaves below it replaced.
pub open spec fn input_for(f: spec_fn(ValueView) -> ValueView, item: ItemView) -> ValueView {
    if item.value().is_container() {
        with_leaves(f, item.value())
    } else {
        item.value()
    }
}

/// In a recursive mapping with a closure that is `f` on scalars and leaves
/// containers alone, the closure is run once per item of the traversal, in
/// its order: on each leaf as it stands in the input, and on each container
/// after the leaves below it were replaced.
pub proof fn recursive_mapping_visits_each_leaf_once<B: Expression>(
    closure: FunctionClosure<B>,
    f: spec_fn(ValueView) -> ValueView,
    scope: Scope,
    container: ValueView,
    n: nat,
)
    requires
        n <= container.entry_count(),
        maps_leaves_by(closure, f),
    ensures
        inputs_prefix(closure, scope, container, true, n) == deep_prefix(
            container,
            true,
            n,
        ).map_values(|item: ItemView| input_for(f, item)),
    decreases container, n,
{
    let expected = deep_prefix(container, true, n).map_values(|item: ItemView| input_for(f, item));
    if n > 0 {
        recursive_mapping_visits_each_leaf_once(closure, f, scope, container, (n - 1) as nat);
        recursive_mapping_replaces_leaves(closure, f, scope, container, (n - 1) as nat);
        let before = map_prefix(closure, scope, container, true, (n - 1) as nat);
        let slot = container.slot(n - 1);
        if slot.is_container() {
            slot_is_smaller(container, n - 1);
            recursive_mapping_visits_each_leaf_once(closure, f, scope, slot, slot.entry_count());
            recursive_mapping_replaces_leaves(closure, f, scope, slot, slot.entry_count());
        }
        let fresh = slot_inputs(closure, scope, slot, true);
        let below = if slot.is_container() {
            deep_prefix(slot, true, slot.entry_count())
        } else {
            Seq::empty()
        };
        let item = item_at(container, n - 1);
        assert(item.value() == slot);
        assert(fresh =~= below.map_values(|item: ItemView| input_for(f, item)).push(
            input_for(f, item),
        ));
        assert(inputs_prefix(closure, scope, container, true, n) == inputs_prefix(
            closure,
            scope,
            container,
            true,
            (n - 1) as nat,
        ) + fresh);
        assert(deep_prefix(container, true, n) == (deep_prefix(container, true, (n - 1) as nat)
            + below).push(item));
        assert(inputs_prefix(closure, scope, container, true, n) =~= expected);
    } else {
        assert(inputs_prefix(closure, scope, container, true, n) =~= expected);
    }
}

} // verus!
