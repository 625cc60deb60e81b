//! `for_each`: runs a closure once per top-level entry, for its effects.

use crate::expression::{
    failure_of, index_value, key_value, CompileError, Context, Effect, Error, Expression,
    FunctionClosure, Outcome, Scope,
};
use crate::function::{
    check_argument, ArgumentCheck, ArgumentList, Definition, Example, Function, Input, Output,
    Parameter, Variable, VariableKind,
};
use crate::iter::{item_at, items_of, IterItem, ItemView};
use crate::kind::{Kind, Shapes, TypeDef};
use crate::value::{Value, ValueView};
use vstd::prelude::*;

verus! {

/// The function `for_each`.
#[derive(Clone, Copy, Debug)]
pub struct ForEach;

/// The kind that the target of an iterating function may have: an object or
/// an array, holding anything.
pub open spec fn container_kind() -> Kind {
    Kind::spec_object(Shapes::spec_all()).spec_or(Kind::spec_array(Shapes::spec_all()))
}

impl ForEach {
    /// Turns a call site into a node: the first argument named `value`, which
    /// has to be able to be an object or an array, and the closure. A call
    /// without `value` is refused for that, one without a closure for that,
    /// and only then is the kind of `value` held against the parameter.
    pub fn compile<E: Expression, B: Expression>(&self, arguments: ArgumentList<E, B>) -> (r:
        Result<ForEachFn<E, B>, CompileError>)
        ensures
            match check_argument(arguments.arguments@, "value"@, container_kind()) {
                ArgumentCheck::Absent => r is Err && r->Err_0 is MissingArgument
                    && r->Err_0->MissingArgument_0@ == "value"@,
                ArgumentCheck::Mismatch => match arguments.closure {
                    None => r is Err && r->Err_0 is MissingClosure,
                    Some(_) => r is Err && r->Err_0 is KindMismatch
                        && r->Err_0->KindMismatch_0@ == "value"@,
                },
                ArgumentCheck::Fits(i) => match arguments.closure {
                    None => r is Err && r->Err_0 is MissingClosure,
                    Some(closure) => r is Ok && r->Ok_0.value == arguments.arguments[i].expression
                        && r->Ok_0.closure == closure,
                },
            },
    {
        let mut arguments = arguments;
        match arguments.find("value") {
            None => Err(CompileError::MissingArgument("value".to_owned())),
            Some(i) => {
                if arguments.closure.is_none() {
                    return Err(CompileError::MissingClosure);
                }
                let wanted = Kind::object(Shapes::all()).or_array(Shapes::all());
                if !arguments.fits(i, wanted) {
                    return Err(CompileError::KindMismatch("value".to_owned()));
                }
                let argument = arguments.arguments.remove(i);
                match arguments.required_closure() {
                    Err(e) => Err(e),
                    Ok(closure) => Ok(ForEachFn { value: argument.expression, closure }),
                }
            },
        }
    }
}

impl Function for ForEach {
    fn identifier(&self) -> (r: &'static str)
        ensures
            r@ == "for_each"@,
    {
        "for_each"
    }

    /// One required parameter: the object or array to run over.
    fn parameters(&self) -> (r: Vec<Parameter>)
        ensures
            r@.len() == 1,
            r[0].keyword@ == "value"@,
            r[0].kind == container_kind(),
            r[0].required,
    {
        let mut out: Vec<Parameter> = Vec::new();
        out.push(
            Parameter {
                keyword: "value",
                kind: Kind::object(Shapes::all()).or_array(Shapes::all()),
                required: true,
            },
        );
        out
    }

    fn examples(&self) -> (r: Vec<Example>)
        ensures
            r@.len() == 2,
            r[0].title@ == "iterate object"@,
            r[0].source@
                == "count = 0; for_each({ \"a\": 1, \"b\": 2 }) -> |_key, value| { count = count + value }; count"@,
            r[0].result is Ok && r[0].result->Ok_0@ == "3"@,
            r[1].title@ == "iterate array"@,
            r[1].source@
                == "count = 0; for_each([1,2,3]) -> |index, value| { count = count + index + value }; count"@,
            r[1].result is Ok && r[1].result->Ok_0@ == "9"@,
    {
        let mut out: Vec<Example> = Vec::new();
        out.push(
            Example {
                title: "iterate object",
                source: "count = 0; for_each({ \"a\": 1, \"b\": 2 }) -> |_key, value| { count = count + value }; count",
                result: Ok("3"),
            },
        );
        out.push(
            Example {
                title: "iterate array",
                source: "count = 0; for_each([1,2,3]) -> |index, value| { count = count + index + value }; count",
                result: Ok("9"),
            },
        );
        out
    }

    /// The closure that `for_each` takes: it runs once per entry, with the
    /// entry's key or index and its value, and may produce anything.
    fn closure(&self) -> (r: Option<Definition>)
        ensures
            r is Some,
            r->Some_0.is_iterator,
            r->Some_0.inputs@.len() == 1,
            r->Some_0.inputs[0].parameter_keyword@ == "value"@,
            r->Some_0.inputs[0].kind == container_kind(),
            r->Some_0.inputs[0].variables@.len() == 2,
            r->Some_0.inputs[0].variables[0].kind is TargetInnerKey,
            r->Some_0.inputs[0].variables[1].kind is TargetInnerValue,
            r->Some_0.inputs[0].output == Output::Kind(Kind::spec_any()),
            r->Some_0.inputs[0].example.title@ == "iterate array"@,
            r->Some_0.inputs[0].example.source@
                == "for_each([1, 2]) -> |index, value| { .foo = to_int!(.foo) + index + value }"@,
            r->Some_0.inputs[0].example.result is Ok,
            r->Some_0.inputs[0].example.result->Ok_0@ == "null"@,
    {
        let mut variables: Vec<Variable> = Vec::new();
        variables.push(Variable { kind: VariableKind::TargetInnerKey });
        variables.push(Variable { kind: VariableKind::TargetInnerValue });
        let mut inputs: Vec<Input> = Vec::new();
        inputs.push(
            Input {
                parameter_keyword: "value",
                kind: Kind::object(Shapes::all()).or_array(Shapes::all()),
                variables,
                output: Output::Kind(Kind::any()),
                example: Example {
                    title: "iterate array",
                    source: "for_each([1, 2]) -> |index, value| { .foo = to_int!(.foo) + index + value }",
                    result: Ok("null"),
                },
            },
        );
        Some(Definition { inputs, is_iterator: true })
    }

    /// The virtual machine cannot run this function: every call fails, and
    /// touches nothing.
    fn call_by_vm(&self, ctx: &mut Context, args: &mut Vec<Value>) -> (r: Result<Value, Error>)
        ensures
            r is Err,
            r->Err_0 is UnsupportedExecutionMode,
            *final(ctx) == *old(ctx),
            *final(args) == *old(args),
    {
        Err(Error::UnsupportedExecutionMode)
    }
}

/// The effect of running the closure on one item, with its key or index
/// and its value bound. A bare value has no position and is not run.
pub open spec fn run_item<B: Expression>(
    closure: FunctionClosure<B>,
    scope: Scope,
    item: ItemView,
) -> Effect {
    match item {
        ItemView::KeyValue(key, value) => closure.run_pair(scope, key_value(key), value),
        ItemView::IndexValue(index, value) => closure.run_pair(scope, index_value(index), value),
        ItemView::Value(_) => Effect { scope, failure: None },
    }
}

/// The effect of running the closure on the first `n` entries of `target`,
/// in order, stopping at the first failure.
pub open spec fn run_prefix<B: Expression>(
    closure: FunctionClosure<B>,
    scope: Scope,
    target: ValueView,
    n: nat,
) -> Effect
    decreases n,
{
    if n == 0 || n > target.entry_count() {
        Effect { scope, failure: None }
    } else {
        let before = run_prefix(closure, scope, target, (n - 1) as nat);
        if before.failure is Some {
            before
        } else {
            run_item(closure, before.scope, item_at(target, n - 1))
        }
    }
}

/// The effect of running the closure on every entry of `target`.
pub open spec fn run_all<B: Expression>(
    closure: FunctionClosure<B>,
    scope: Scope,
    target: ValueView,
) -> Effect {
    run_prefix(closure, scope, target, target.entry_count())
}

/// The items that the closure was run on while the first `n` entries of
/// `target` were processed: every entry up to and with the first that
/// failed, none after it.
pub open spec fn visited<B: Expression>(
    closure: FunctionClosure<B>,
    scope: Scope,
    target: ValueView,
    n: nat,
) -> Seq<ItemView>
    decreases n,
{
    if n == 0 || n > target.entry_count() {
        Seq::empty()
    } else {
        let seen = visited(closure, scope, target, (n - 1) as nat);
        if run_prefix(closure, scope, target, (n - 1) as nat).failure is Some {
            seen
        } else {
            seen.push(item_at(target, n - 1))
        }
    }
}

/// The compiled call: the target expression and the closure to run.
#[derive(Debug)]
pub struct ForEachFn<E, B> {
    pub value: E,
    pub closure: FunctionClosure<B>,
}

impl<E: Expression, B: Expression> ForEachFn<E, B> {
    /// Runs the closure on each entry of `target` in order and stops at the
    /// first failure. The result is null whenever no run failed.
    pub fn run(&self, ctx: &mut Context, target: Value) -> (r: Result<Value, Error>)
        ensures
            final(ctx)@ == run_all(self.closure, old(ctx)@, target@).scope,
            match r {
                Ok(v) => v@ == ValueView::Null && run_all(
                    self.closure,
                    old(ctx)@,
                    target@,
                ).failure is None,
                Err(e) => run_all(self.closure, old(ctx)@, target@).failure == Some(e),
            },
    {
        let ghost start = ctx@;
        let ghost whole = target@;
        let mut iter = target.into_iter(false);
        loop
            invariant
                start == old(ctx)@,
                whole == target@,
                iter@.value == whole,
                iter@.position <= whole.entry_count(),
                ctx@ == run_prefix(self.closure, start, whole, iter@.position).scope,
                run_prefix(self.closure, start, whole, iter@.position).failure is None,
            ensures
                iter@.position == whole.entry_count(),
                ctx@ == run_prefix(self.closure, start, whole, iter@.position).scope,
                run_prefix(self.closure, start, whole, iter@.position).failure is None,
            decreases whole.entry_count() - iter@.position,
        {
            let ghost done = iter@.position;
            match iter.next() {
                None => {
                    break ;
                },
                Some(item) => {
                    let outcome = match &item {
                        IterItem::KeyValue(key, value) => self.closure.run_key_value(
                            ctx,
                            key.as_str(),
                            value,
                        ),
                        IterItem::IndexValue(index, value) => self.closure.run_index_value(
                            ctx,
                            *index,
                            value,
                        ),
                        IterItem::Value(_) => Ok(()),
                    };
                    assert(failure_of(outcome) == run_prefix(
                        self.closure,
                        start,
                        whole,
                        done + 1,
                    ).failure);
                    match outcome {
                        Ok(_) => {},
                        Err(e) => {
                            proof {
                                failure_is_final(
                                    self.closure,
                                    start,
                                    whole,
                                    done + 1,
                                    whole.entry_count(),
                                );
                            }
                            return Err(e);
                        },
                    }
                },
            }
        }
        Ok(Value::Null)
    }
}

impl<E: Expression, B: Expression> Expression for ForEachFn<E, B> {
    open spec fn outcome(&self, scope: Scope) -> Outcome {
        let target = self.value.outcome(scope);
        match target.result {
            Err(e) => Outcome { scope: target.scope, result: Err(e) },
            Ok(v) => {
                let effect = run_all(self.closure, target.scope, v);
                Outcome {
                    scope: effect.scope,
                    result: match effect.failure {
                        Some(e) => Err(e),
                        None => Ok(ValueView::Null),
                    },
                }
            },
        }
    }

    open spec fn static_type(&self) -> TypeDef {
        TypeDef { kind: Kind::spec_null(), fallible: self.closure.block.static_type().fallible }
    }

    fn resolve(&self, ctx: &mut Context) -> (r: Result<Value, Error>) {
        match self.value.resolve(ctx) {
            Err(e) => Err(e),
            Ok(target) => self.run(ctx, target),
        }
    }

    fn type_def(&self) -> (t: TypeDef) {
        let fallible = self.closure.type_def().is_fallible();
        TypeDef::null().with_fallibility(fallible)
    }
}

/// Once a run has failed, nothing after it counts: the effect of any longer
/// prefix is the effect at the failure.
pub proof fn failure_is_final<B: Expression>(
    closure: FunctionClosure<B>,
    scope: Scope,
    target: ValueView,
    n: nat,
    m: nat,
)
    requires
        n <= m <= target.entry_count(),
        run_prefix(closure, scope, target, n).failure is Some,
    ensures
        run_prefix(closure, scope, target, m) == run_prefix(closure, scope, target, n),
        visited(closure, scope, target, m) == visited(closure, scope, target, n),
    decreases m,
{
    if n < m {
        failure_is_final(closure, scope, target, n, (m - 1) as nat);
    }
}

/// With a closure that never fails, every entry is run exactly once, in
/// order: an array's items with the indices from zero up, an object's
/// entries with their keys.
pub proof fn visits_every_entry_in_order<B: Expression>(
    closure: FunctionClosure<B>,
    scope: Scope,
    target: ValueView,
    n: nat,
)
    requires
        n <= target.entry_count(),
        forall|s: Scope| (#[trigger] closure.block.outcome(s)).result is Ok,
    ensures
        run_prefix(closure, scope, target, n).failure is None,
        visited(closure, scope, target, n).len() == n,
        forall|i: int|
            0 <= i < n ==> #[trigger] visited(closure, scope, target, n)[i] == item_at(target, i),
        target is Array ==> forall|i: int|
            0 <= i < n ==> #[trigger] visited(closure, scope, target, n)[i]
                == ItemView::IndexValue(i as nat, target->Array_0[i]),
    decreases n,
{
    if n > 0 {
        visits_every_entry_in_order(closure, scope, target, (n - 1) as nat);
    }
}

/// With a closure that never fails, the items it is run on are exactly the
/// items of the target, in their order, and the whole run does not fail.
pub proof fn unfailing_closure_visits_all<B: Expression>(
    closure: FunctionClosure<B>,
    scope: Scope,
    target: ValueView,
)
    requires
        forall|s: Scope| (#[trigger] closure.block.outcome(s)).result is Ok,
    ensures
        visited(closure, scope, target, target.entry_count()) == items_of(target),
        run_all(closure, scope, target).failure is None,
{
    visits_every_entry_in_order(closure, scope, target, target.entry_count());
    assert(visited(closure, scope, target, target.entry_count()) =~= items_of(target));
}

/// With a closure whose block changes nothing and never fails, running it
/// over any value leaves the scope as it was and ends without failure.
pub proof fn idle_closure_changes_nothing<B: Expression>(
    closure: FunctionClosure<B>,
    scope: Scope,
    target: ValueView,
    n: nat,
)
    requires
        n <= target.entry_count(),
        forall|s: Scope| (#[trigger] closure.block.outcome(s)).result is Ok,
        forall|s: Scope| (#[trigger] closure.block.outcome(s)).scope == s,
    ensures
        run_prefix(closure, scope, target, n) == (Effect { scope, failure: None }),
    decreases n,
{
    if n > 0 {
        idle_closure_changes_nothing(closure, scope, target, (n - 1) as nat);
        let item = item_at(target, n - 1);
        let first = match item {
            ItemView::KeyValue(key, _) => key_value(key),
            ItemView::IndexValue(index, _) => index_value(index),
            ItemView::Value(v) => v,
        };
        let bound = scope.bind(first).bind(item.value());
        assert(bound.unbind(2).locals =~= scope.locals);
        assert(bound.unbind(2) == scope);
    }
}

/// A `for_each` whose target evaluates and whose block changes nothing and
/// never fails evaluates to null and leaves the scope as the target's
/// evaluation left it.
pub proof fn idle_for_each_is_null<E: Expression, B: Expression>(
    node: ForEachFn<E, B>,
    scope: Scope,
)
    requires
        node.value.outcome(scope).result is Ok,
        forall|s: Scope| (#[trigger] node.closure.block.outcome(s)).result is Ok,
        forall|s: Scope| (#[trigger] node.closure.block.outcome(s)).scope == s,
    ensures
        node.outcome(scope) == (Outcome {
            scope: node.value.outcome(scope).scope,
            result: Ok(ValueView::Null),
        }),
{
    let target = node.value.outcome(scope);
    let value = target.result->Ok_0;
    idle_closure_changes_nothing(node.closure, target.scope, value, value.entry_count());
}

} // verus!
