//! What a function declares of itself, and the arguments of a call site.

use crate::expression::{CompileError, Context, Error, Expression, FunctionClosure};
use crate::value::Value;
use crate::kind::Kind;
use vstd::prelude::*;

verus! {

/// A declared parameter.
#[derive(Debug)]
pub struct Parameter {
    pub keyword: &'static str,
    pub kind: Kind,
    pub required: bool,
}

/// A usage example: a source snippet and the text of what it evaluates to,
/// or of the failure it ends in.
#[derive(Debug)]
pub struct Example {
    pub title: &'static str,
    pub source: &'static str,
    pub result: Result<&'static str, &'static str>,
}

/// What a closure variable is bound to.
#[derive(Debug)]
pub enum VariableKind {
    /// A value of the given kind.
    Exact(Kind),
    /// The key or the index of an entry of the target.
    TargetInnerKey,
    /// The value of an entry of the target.
    TargetInnerValue,
}

/// One variable of a closure.
#[derive(Debug)]
pub struct Variable {
    pub kind: VariableKind,
}

/// What a closure's body has to produce.
#[derive(Debug)]
pub enum Output {
    Kind(Kind),
}

/// The closure that goes with one parameter.
#[derive(Debug)]
pub struct Input {
    pub parameter_keyword: &'static str,
    pub kind: Kind,
    pub variables: Vec<Variable>,
    pub output: Output,
    pub example: Example,
}

/// The closure a function takes, and whether it runs once per entry.
#[derive(Debug)]
pub struct Definition {
    pub inputs: Vec<Input>,
    pub is_iterator: bool,
}

/// What every callable primitive declares of itself, and its entry point
/// for the virtual machine. The entry point for the interpreter is the
/// `resolve` of the node that the primitive's `compile` gives.
pub trait Function {
    /// The name by which the function is called.
    fn identifier(&self) -> &'static str;

    /// The declared parameters, in order.
    fn parameters(&self) -> Vec<Parameter>;

    /// Usage examples with their results.
    fn examples(&self) -> Vec<Example>;

    /// The closure the function takes, if it takes one.
    fn closure(&self) -> Option<Definition>;

    /// Runs the function in the virtual machine.
    fn call_by_vm(&self, ctx: &mut Context, args: &mut Vec<Value>) -> Result<Value, Error>;
}

/// One argument of a call site.
#[derive(Debug)]
pub struct Argument<E> {
    pub keyword: String,
    pub expression: E,
}

/// The arguments of a call site and the closure attached to it, if any.
#[derive(Debug)]
pub struct ArgumentList<E, B> {
    pub arguments: Vec<Argument<E>>,
    pub closure: Option<FunctionClosure<B>>,
}

/// Whether `i` is the place of the first argument with the given keyword.
pub open spec fn is_first_match<E>(arguments: Seq<Argument<E>>, keyword: Seq<char>, i: int) -> bool {
    &&& 0 <= i < arguments.len()
    &&& arguments[i].keyword@ == keyword
    &&& forall|j: int| 0 <= j < i ==> (#[trigger] arguments[j]).keyword@ != keyword
}

/// Whether no argument has the given keyword.
pub open spec fn has_no_match<E>(arguments: Seq<Argument<E>>, keyword: Seq<char>) -> bool {
    forall|j: int| 0 <= j < arguments.len() ==> (#[trigger] arguments[j]).keyword@ != keyword
}

/// The place of the first argument with the given keyword, if there is one.
pub open spec fn lookup<E>(arguments: Seq<Argument<E>>, keyword: Seq<char>) -> Option<int> {
    if exists|i: int| is_first_match(arguments, keyword, i) {
        Some(choose|i: int| is_first_match(arguments, keyword, i))
    } else {
        None
    }
}

/// What a call site offers for one parameter.
pub enum ArgumentCheck {
    /// No argument has the parameter's keyword.
    Absent,
    /// The argument's kind shares nothing with the parameter's.
    Mismatch,
    /// The argument at this place fits.
    Fits(int),
}

/// Holds the call site's arguments against one parameter.
pub open spec fn check_argument<E: Expression>(
    arguments: Seq<Argument<E>>,
    keyword: Seq<char>,
    kind: Kind,
) -> ArgumentCheck {
    match lookup(arguments, keyword) {
        None => ArgumentCheck::Absent,
        Some(i) => if arguments[i].expression.static_type().kind.shapes.spec_intersects(
            kind.shapes,
        ) {
            ArgumentCheck::Fits(i)
        } else {
            ArgumentCheck::Mismatch
        },
    }
}

/// The first match is the one that `lookup` gives.
pub proof fn first_match_is_unique<E>(arguments: Seq<Argument<E>>, keyword: Seq<char>, i: int)
    requires
        is_first_match(arguments, keyword, i),
    ensures
        lookup(arguments, keyword) == Some(i),
{
    let j = choose|j: int| is_first_match(arguments, keyword, j);
    assert(is_first_match(arguments, keyword, j));
    if j < i {
        assert(arguments[j].keyword@ != keyword);
    }
    if i < j {
        assert(arguments[i].keyword@ != keyword);
    }
}

impl<E: Expression, B: Expression> ArgumentList<E, B> {
    /// The place of the first argument with the given keyword.
    pub fn find(&self, keyword: &str) -> (r: Option<usize>)
        ensures
            match r {
                Some(i) => is_first_match(self.arguments@, keyword@, i as int) && lookup(
                    self.arguments@,
                    keyword@,
                ) == Some(i as int),
                None => has_no_match(self.arguments@, keyword@) && lookup(
                    self.arguments@,
                    keyword@,
                ) is None,
            },
    {
        let wanted = keyword.to_owned();
        let mut i: usize = 0;
        while i < self.arguments.len()
            invariant
                i <= self.arguments.len(),
                wanted@ == keyword@,
                forall|j: int| 0 <= j < i ==> (#[trigger] self.arguments@[j]).keyword@ != keyword@,
            decreases self.arguments.len() - i,
        {
            if self.arguments[i].keyword == wanted {
                proof {
                    first_match_is_unique(self.arguments@, keyword@, i as int);
                }
                return Some(i);
            }
            i += 1;
        }
        assert forall|j: int| !is_first_match(self.arguments@, keyword@, j) by {
            if 0 <= j < self.arguments@.len() {
                assert(self.arguments@[j].keyword@ != keyword@);
            }
        }
        None
    }

    /// Whether the argument at place `i` can have a value of the given kind.
    pub fn fits(&self, i: usize, kind: Kind) -> (r: bool)
        requires
            i < self.arguments.len(),
        ensures
            r == self.arguments[i as int].expression.static_type().kind.shapes.spec_intersects(
                kind.shapes,
            ),
    {
        self.arguments[i].expression.type_def().kind().intersects(kind)
    }

    /// Takes the first argument with the given keyword out of the list.
    pub fn optional(&mut self, keyword: &str) -> (r: Option<E>)
        ensures
            final(self).closure == old(self).closure,
            match lookup(old(self).arguments@, keyword@) {
                Some(i) => r == Some(old(self).arguments[i].expression) && final(self).arguments@
                    == old(self).arguments@.remove(i),
                None => r is None && final(self).arguments@ == old(self).arguments@,
            },
    {
        match self.find(keyword) {
            None => None,
            Some(i) => {
                let argument = self.arguments.remove(i);
                Some(argument.expression)
            },
        }
    }

    /// Takes the closure, which the call site has to have.
    pub fn required_closure(self) -> (r: Result<FunctionClosure<B>, CompileError>)
        ensures
            match r {
                Ok(closure) => self.closure == Some(closure),
                Err(e) => self.closure is None && e is MissingClosure,
            },
    {
        match self.closure {
            Some(closure) => Ok(closure),
            None => Err(CompileError::MissingClosure),
        }
    }
}

} // verus!
