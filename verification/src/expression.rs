//! Expressions, the scope they run in, and the closure a function drives.

use crate::kind::TypeDef;
use crate::value::{Value, ValueView};
use vstd::prelude::*;

verus! {

/// Why evaluation stopped.
#[derive(Clone, Debug, PartialEq, Eq)]
pub enum Error {
    /// An expression or a closure body failed while it ran.
    Runtime(String),
    /// A value did not have the variant that the operation needs.
    UnexpectedKind,
    /// The function has no implementation for the virtual machine.
    UnsupportedExecutionMode,
}

/// A call site that does not fit the function it calls.
#[derive(Clone, Debug, PartialEq, Eq)]
pub enum CompileError {
    /// A required parameter has no argument.
    MissingArgument(String),
    /// An argument's kind shares nothing with the parameter's kind.
    KindMismatch(String),
    /// The function needs a closure and the call has none.
    MissingClosure,
}

/// The mutable state that every evaluation step shares: the record under
/// transformation and the stack of local bindings, innermost last.
#[derive(Debug)]
pub struct Context {
    pub target: Value,
    pub locals: Vec<Value>,
}

/// What a `Context` holds.
pub struct Scope {
    pub target: ValueView,
    pub locals: Seq<ValueView>,
}

impl Scope {
    /// The scope with one more binding on top.
    pub open spec fn bind(self, value: ValueView) -> Scope {
        Scope { target: self.target, locals: self.locals.push(value) }
    }

    /// The scope without its `n` innermost bindings (without any, if it has
    /// fewer).
    pub open spec fn unbind(self, n: nat) -> Scope {
        Scope {
            target: self.target,
            locals: if self.locals.len() >= n {
                self.locals.take(self.locals.len() - n)
            } else {
                Seq::empty()
            },
        }
    }
}

impl View for Context {
    type V = Scope;

    open spec fn view(&self) -> Scope {
        Scope {
            target: self.target@,
            locals: Seq::new(self.locals.len() as nat, |i: int| self.locals[i]@),
        }
    }
}

/// The scope an evaluation leaves behind, and its result.
pub struct Outcome {
    pub scope: Scope,
    pub result: Result<ValueView, Error>,
}

/// The scope a closure run leaves behind, and its failure if it had one.
pub struct Effect {
    pub scope: Scope,
    pub failure: Option<Error>,
}

/// The result of an evaluation with its value taken by view.
pub open spec fn result_view(r: Result<Value, Error>) -> Result<ValueView, Error> {
    match r {
        Ok(v) => Ok(v@),
        Err(e) => Err(e),
    }
}

/// The failure of a run, if any.
pub open spec fn failure_of(r: Result<(), Error>) -> Option<Error> {
    match r {
        Ok(_) => None,
        Err(e) => Some(e),
    }
}

/// A node of a compiled program. `outcome` says what evaluating it in a
/// scope gives; `resolve` does it.
pub trait Expression {
    spec fn outcome(&self, scope: Scope) -> Outcome;

    spec fn static_type(&self) -> TypeDef;

    fn resolve(&self, ctx: &mut Context) -> (r: Result<Value, Error>)
        ensures
            final(ctx)@ == self.outcome(old(ctx)@).scope,
            result_view(r) == self.outcome(old(ctx)@).result,
    ;

    fn type_def(&self) -> (t: TypeDef)
        ensures
            t == self.static_type(),
    ;
}

/// The value that a key is bound as: the bytes of its text.
pub open spec fn key_value(key: Seq<char>) -> ValueView {
    ValueView::Bytes(vstd::utf8::encode_utf8(key))
}

/// The value that an index is bound as: the integer, or the largest one
/// where the index is beyond it.
pub open spec fn index_value(index: nat) -> ValueView {
    ValueView::Integer(
        if index <= i64::MAX {
            index as i64
        } else {
            i64::MAX
        },
    )
}

/// The compiled block of a call site. Its variables are the innermost
/// bindings of the scope it runs in: the value last, the key or index, where
/// there is one, below it.
#[derive(Debug)]
pub struct FunctionClosure<B> {
    pub block: B,
}

impl<B: Expression> FunctionClosure<B> {
    /// Running the block with two bindings and dropping its result.
    pub open spec fn run_pair(&self, scope: Scope, first: ValueView, value: ValueView) -> Effect {
        let inner = self.block.outcome(scope.bind(first).bind(value));
        Effect {
            scope: inner.scope.unbind(2),
            failure: match inner.result {
                Ok(_) => None,
                Err(e) => Some(e),
            },
        }
    }

    /// Running the block with the value bound and keeping its result.
    pub open spec fn map_outcome(&self, scope: Scope, value: ValueView) -> Outcome {
        let inner = self.block.outcome(scope.bind(value));
        Outcome { scope: inner.scope.unbind(1), result: inner.result }
    }

    pub fn new(block: B) -> (r: Self)
        ensures
            r.block == block,
    {
        FunctionClosure { block }
    }

    /// Binds `first` and `value`, runs the block, drops the bindings and the
    /// block's result.
    fn run_bound(&self, ctx: &mut Context, first: Value, value: Value) -> (r: Result<(), Error>)
        ensures
            final(ctx)@ == self.run_pair(old(ctx)@, first@, value@).scope,
            failure_of(r) == self.run_pair(old(ctx)@, first@, value@).failure,
    {
        let ghost before = ctx@;
        ctx.locals.push(first);
        ctx.locals.push(value);
        assert(ctx@.locals =~= before.bind(first@).bind(value@).locals);
        let result = self.block.resolve(ctx);
        drop_bindings(ctx, 2);
        match result {
            Ok(_) => Ok(()),
            Err(e) => Err(e),
        }
    }

    /// Runs the block for one entry of an object.
    pub fn run_key_value(&self, ctx: &mut Context, key: &str, value: &Value) -> (r: Result<
        (),
        Error,
    >)
        ensures
            final(ctx)@ == self.run_pair(old(ctx)@, key_value(key@), value@).scope,
            failure_of(r) == self.run_pair(old(ctx)@, key_value(key@), value@).failure,
    {
        let bytes = key.as_bytes();
        let mut copy: Vec<u8> = Vec::new();
        let mut i: usize = 0;
        while i < bytes.len()
            invariant
                i <= bytes.len(),
                copy@ == bytes@.take(i as int),
            decreases bytes.len() - i,
        {
            copy.push(bytes[i]);
            i += 1;
            assert(copy@ =~= bytes@.take(i as int));
        }
        assert(bytes@.take(bytes.len() as int) =~= bytes@);
        self.run_bound(ctx, Value::Bytes(copy), value.duplicate())
    }

    /// Runs the block for one item of an array.
    pub fn run_index_value(&self, ctx: &mut Context, index: usize, value: &Value) -> (r: Result<
        (),
        Error,
    >)
        ensures
            final(ctx)@ == self.run_pair(old(ctx)@, index_value(index as nat), value@).scope,
            failure_of(r) == self.run_pair(old(ctx)@, index_value(index as nat), value@).failure,
    {
        let wide: u64 = index as u64;
        let number: i64 = if wide <= 0x7fff_ffff_ffff_ffffu64 {
            wide as i64
        } else {
            i64::MAX
        };
        self.run_bound(ctx, Value::Integer(number), value.duplicate())
    }

    /// Runs the block on `value` and puts the block's result in its place. On
    /// failure `value` stays as it was.
    pub fn map_value(&self, ctx: &mut Context, value: &mut Value) -> (r: Result<(), Error>)
        ensures
            final(ctx)@ == self.map_outcome(old(ctx)@, old(value)@).scope,
            match r {
                Ok(_) => self.map_outcome(old(ctx)@, old(value)@).result == Ok::<ValueView, Error>(
                    final(value)@,
                ),
                Err(e) => self.map_outcome(old(ctx)@, old(value)@).result == Err::<
                    ValueView,
                    Error,
                >(e) && final(value)@ == old(value)@,
            },
    {
        let ghost before = ctx@;
        let bound = value.duplicate();
        ctx.locals.push(bound);
        assert(ctx@.locals =~= before.bind(bound@).locals);
        let result = self.block.resolve(ctx);
        drop_bindings(ctx, 1);
        match result {
            Ok(v) => {
                *value = v;
                Ok(())
            },
            Err(e) => Err(e),
        }
    }

    /// The block's static type.
    pub fn type_def(&self) -> (t: TypeDef)
        ensures
            t == self.block.static_type(),
    {
        self.block.type_def()
    }
}

/// Drops the `n` innermost bindings of the scope.
pub fn drop_bindings(ctx: &mut Context, n: usize)
    ensures
        final(ctx)@ == old(ctx)@.unbind(n as nat),
{
    let len = ctx.locals.len();
    if len >= n {
        ctx.locals.truncate(len - n);
    } else {
        ctx.locals.truncate(0);
    }
    assert(ctx@.locals =~= old(ctx)@.unbind(n as nat).locals);
}

} // verus!
