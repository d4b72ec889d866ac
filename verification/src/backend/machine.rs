//! What the evaluator is, as mathematics: the states of a machine and the
//! step from one state to the next.
//!
//! A state holds the scope chain, a focus (what is being worked on) and a
//! stack of frames (what remains to be done with the result). A step returns
//! an action for the caller: to go on, to print a line, to answer a request,
//! or to take note that the program has ended.

use crate::ast::expr::ExprView;
use crate::ast::stmt::StmtView;
use crate::backend::environment::{lemma_holder, EnvView};
use crate::backend::number::Number;
use crate::backend::runtime_error::RuntimeErrorView;
use crate::backend::value::ValueView;
use crate::frontend::token::TokenType;
use vstd::prelude::*;

verus! {

/// The four operations on numbers that the caller computes.
#[derive(Clone, Copy, Debug, PartialEq, Eq, Structural)]
pub enum ArithOp {
    Add,
    Subtract,
    Multiply,
    Divide,
}

/// Where a loop stands.
#[derive(Clone, Copy, Debug, PartialEq, Eq, Structural)]
pub enum LoopStage {
    /// A round is about to start: the condition is tested next.
    Next,
    /// The condition is being evaluated.
    Test,
    /// The body is being executed.
    Body,
}

/// What the caller is asked to compute.
pub enum RequestView {
    /// The binary64 value of a number literal.
    ParseNumber(Seq<char>),
    /// The result of an operation on two numbers, left operand first.
    Arithmetic(ArithOp, Number, Number),
    /// The display form of a number.
    FormatNumber(Number),
}

/// What a step asks of the caller.
pub enum ActionView {
    /// Nothing: step again.
    Continue,
    /// Write this line to the output, then step again.
    Print(Seq<char>),
    /// Answer this request with the next event.
    Ask(RequestView),
    /// The program has ended, well or with an error.
    Finished(Result<(), RuntimeErrorView>),
}

/// What the caller hands to a step.
pub enum EventView {
    /// No answer.
    Resume,
    /// The number that was asked for.
    Number(Number),
    /// The text that was asked for.
    Text(Seq<char>),
}

/// What remains to be done once the focus has given its value.
#[allow(inconsistent_fields)]
pub enum FrameView {
    /// Execute the statements from `next` on.
    Sequence { statements: Seq<StmtView>, next: nat },
    /// Close the innermost scope.
    EndScope,
    /// Drop the value of an expression statement.
    Discard,
    /// Print the value.
    Print,
    /// Bind the value to a new variable.
    Define { name: Seq<char> },
    /// Choose a branch by the value of the condition.
    Branch { when_true: StmtView, when_false: Option<StmtView> },
    /// Go on with a loop.
    Loop {
        stage: LoopStage,
        condition: Option<ExprView>,
        increment: Option<ExprView>,
        body: StmtView,
    },
    /// Apply a prefix operator to the value.
    Unary { operator: TokenType },
    /// The value is the right operand: evaluate the left one next.
    BinaryLeft { operator: TokenType, left: ExprView },
    /// The value is the left operand: apply the operator.
    BinaryApply { operator: TokenType, right: ValueView },
    /// The value is the text of the right operand of a concatenation.
    ConcatAfter { left: Seq<char> },
    /// The value is the text of the left operand of a concatenation.
    ConcatBefore { right: Seq<char> },
    /// The value is the left operand of `and` or `or`.
    LogicalRight { operator: TokenType, right: ExprView },
    /// Assign the value to a variable.
    Assign { name: Seq<char> },
}

/// What the machine is working on.
pub enum FocusView {
    /// A statement to execute.
    Statement(StmtView),
    /// An expression to evaluate.
    Expression(ExprView),
    /// A value to hand to the frame on top of the stack.
    Value(ValueView),
    /// A request that the caller has not answered yet.
    Await(RequestView),
    /// An error on its way out through the frames.
    Raise(RuntimeErrorView),
}

/// A state of the machine.
pub struct MachineView {
    pub env: EnvView,
    pub focus: FocusView,
    pub stack: Seq<FrameView>,
}

/// A step's result: the next state and the action.
pub struct Step {
    pub machine: MachineView,
    pub action: ActionView,
}

/// Go on with `focus`.
pub open spec fn proceed(env: EnvView, stack: Seq<FrameView>, focus: FocusView) -> Step {
    Step { machine: MachineView { env, focus, stack }, action: ActionView::Continue }
}

/// Ask the caller and wait for the answer.
pub open spec fn ask(env: EnvView, stack: Seq<FrameView>, request: RequestView) -> Step {
    Step {
        machine: MachineView { env, focus: FocusView::Await(request), stack },
        action: ActionView::Ask(request),
    }
}

/// Fail with "invalid operation".
pub open spec fn reject(env: EnvView, stack: Seq<FrameView>) -> Step {
    proceed(env, stack, FocusView::Raise(RuntimeErrorView::invalid_operation()))
}

/// The first step of a statement.
pub open spec fn start_statement(env: EnvView, stack: Seq<FrameView>, statement: StmtView) -> Step {
    match statement {
        StmtView::Block(statements) => proceed(
            env.begin_scope(),
            stack.push(FrameView::EndScope).push(FrameView::Sequence { statements, next: 0 }),
            FocusView::Value(ValueView::Nil),
        ),
        StmtView::Expression(e) => proceed(env, stack.push(FrameView::Discard), FocusView::Expression(e)),
        StmtView::Print(e) => proceed(env, stack.push(FrameView::Print), FocusView::Expression(e)),
        StmtView::Var { name, initializer } => match initializer {
            Some(e) => proceed(
                env,
                stack.push(FrameView::Define { name: name.lexeme }),
                FocusView::Expression(e),
            ),
            None => proceed(
                env.define(name.lexeme, ValueView::Nil),
                stack,
                FocusView::Value(ValueView::Nil),
            ),
        },
        StmtView::Conditional { condition, when_true, when_false } => proceed(
            env,
            stack.push(
                FrameView::Branch {
                    when_true: *when_true,
                    when_false: match when_false {
                        Some(s) => Some(*s),
                        None => None,
                    },
                },
            ),
            FocusView::Expression(condition),
        ),
        StmtView::While { condition, body } => proceed(
            env,
            stack.push(
                FrameView::Loop {
                    stage: LoopStage::Next,
                    condition: Some(condition),
                    increment: None,
                    body: *body,
                },
            ),
            FocusView::Value(ValueView::Nil),
        ),
        StmtView::For { initializer, condition, increment, body } => proceed(
            env.begin_scope(),
            stack.push(FrameView::EndScope).push(
                FrameView::Loop { stage: LoopStage::Next, condition, increment, body: *body },
            ),
            match initializer {
                Some(s) => FocusView::Statement(*s),
                None => FocusView::Value(ValueView::Nil),
            },
        ),
    }
}

/// The first step of an expression.
pub open spec fn start_expression(env: EnvView, stack: Seq<FrameView>, e: ExprView) -> Step {
    match e {
        ExprView::BoolLiteral(b) => proceed(env, stack, FocusView::Value(ValueView::Bool(b))),
        ExprView::NumberLiteral(lexeme) => ask(env, stack, RequestView::ParseNumber(lexeme)),
        ExprView::StringLiteral(s) => proceed(env, stack, FocusView::Value(ValueView::String(s))),
        ExprView::Nil => proceed(env, stack, FocusView::Value(ValueView::Nil)),
        ExprView::Grouping(inner) => proceed(env, stack, FocusView::Expression(*inner)),
        ExprView::Unary { operator, right } => proceed(
            env,
            stack.push(FrameView::Unary { operator: operator.token_type }),
            FocusView::Expression(*right),
        ),
        ExprView::Binary { left, operator, right } => proceed(
            env,
            stack.push(FrameView::BinaryLeft { operator: operator.token_type, left: *left }),
            FocusView::Expression(*right),
        ),
        ExprView::Logical { left, operator, right } => if operator.token_type == TokenType::And
            || operator.token_type == TokenType::Or {
            proceed(
                env,
                stack.push(FrameView::LogicalRight { operator: operator.token_type, right: *right }),
                FocusView::Expression(*left),
            )
        } else {
            reject(env, stack)
        },
        ExprView::Variable { name } => match env.get(name.lexeme) {
            Some(value) => proceed(env, stack, FocusView::Value(value)),
            None => proceed(
                env,
                stack,
                FocusView::Raise(RuntimeErrorView::undefined_variable(name.lexeme)),
            ),
        },
        ExprView::Assignment { name, value } => proceed(
            env,
            stack.push(FrameView::Assign { name: name.lexeme }),
            FocusView::Expression(*value),
        ),
    }
}

/// A prefix operator applied to a value: `-` negates a number, `!` gives the
/// opposite of the value's truthiness.
pub open spec fn apply_unary(operator: TokenType, value: ValueView) -> FocusView {
    match (operator, value) {
        (TokenType::Minus, ValueView::Number(n)) => FocusView::Value(ValueView::Number(n.negated())),
        (TokenType::Bang, v) => FocusView::Value(ValueView::Bool(!v.is_truthy())),
        _ => FocusView::Raise(RuntimeErrorView::invalid_operation()),
    }
}

/// The operation that an arithmetic operator asks for.
pub open spec fn arithmetic_of(operator: TokenType) -> Option<ArithOp> {
    match operator {
        TokenType::Plus => Some(ArithOp::Add),
        TokenType::Minus => Some(ArithOp::Subtract),
        TokenType::Star => Some(ArithOp::Multiply),
        TokenType::Slash => Some(ArithOp::Divide),
        _ => None,
    }
}

/// The result of a comparison operator on two numbers.
pub open spec fn comparison_of(operator: TokenType, left: Number, right: Number) -> Option<bool> {
    match operator {
        TokenType::Greater => Some(right.less_than(left)),
        TokenType::GreaterEqual => Some(right.less_or_equal_to(left)),
        TokenType::Less => Some(left.less_than(right)),
        TokenType::LessEqual => Some(left.less_or_equal_to(right)),
        _ => None,
    }
}

/// An infix operator applied to two values.
///
/// On two numbers, an arithmetic operator asks the caller for the result and
/// a comparison operator gives a boolean. `+` with a string on either side
/// concatenates the string with the display form of the other operand, which
/// is asked of the caller where that operand is a number. `==` and `!=`
/// compare any two values. Everything else is an invalid operation.
pub open spec fn apply_binary(
    env: EnvView,
    stack: Seq<FrameView>,
    operator: TokenType,
    left: ValueView,
    right: ValueView,
) -> Step {
    if operator == TokenType::EqualEqual {
        proceed(env, stack, FocusView::Value(ValueView::Bool(left.equals(right))))
    } else if operator == TokenType::BangEqual {
        proceed(env, stack, FocusView::Value(ValueView::Bool(!left.equals(right))))
    } else {
        match (left, right) {
            (ValueView::Number(l), ValueView::Number(r)) => match arithmetic_of(operator) {
                Some(op) => ask(env, stack, RequestView::Arithmetic(op, l, r)),
                None => match comparison_of(operator, l, r) {
                    Some(b) => proceed(env, stack, FocusView::Value(ValueView::Bool(b))),
                    None => reject(env, stack),
                },
            },
            (ValueView::String(l), r) => if operator == TokenType::Plus {
                match r {
                    ValueView::Number(n) => ask(
                        env,
                        stack.push(FrameView::ConcatAfter { left: l }),
                        RequestView::FormatNumber(n),
                    ),
                    _ => proceed(env, stack, FocusView::Value(ValueView::String(l + r.text()->0))),
                }
            } else {
                reject(env, stack)
            },
            (l, ValueView::String(r)) => if operator == TokenType::Plus {
                match l {
                    ValueView::Number(n) => ask(
                        env,
                        stack.push(FrameView::ConcatBefore { right: r }),
                        RequestView::FormatNumber(n),
                    ),
                    _ => proceed(env, stack, FocusView::Value(ValueView::String(l.text()->0 + r))),
                }
            } else {
                reject(env, stack)
            },
            _ => reject(env, stack),
        }
    }
}

/// The start of a loop's next round: test the condition if there is one, else
/// execute the body at once.
pub open spec fn next_round(
    env: EnvView,
    stack: Seq<FrameView>,
    condition: Option<ExprView>,
    increment: Option<ExprView>,
    body: StmtView,
) -> Step {
    match condition {
        Some(c) => proceed(
            env,
            stack.push(FrameView::Loop { stage: LoopStage::Test, condition, increment, body }),
            FocusView::Expression(c),
        ),
        None => proceed(
            env,
            stack.push(FrameView::Loop { stage: LoopStage::Body, condition, increment, body }),
            FocusView::Statement(body),
        ),
    }
}

/// What a loop frame does with the value it is handed.
pub open spec fn continue_loop(
    env: EnvView,
    stack: Seq<FrameView>,
    stage: LoopStage,
    condition: Option<ExprView>,
    increment: Option<ExprView>,
    body: StmtView,
    value: ValueView,
) -> Step {
    match stage {
        LoopStage::Next => next_round(env, stack, condition, increment, body),
        LoopStage::Test => if value.is_truthy() {
            proceed(
                env,
                stack.push(FrameView::Loop { stage: LoopStage::Body, condition, increment, body }),
                FocusView::Statement(body),
            )
        } else {
            proceed(env, stack, FocusView::Value(ValueView::Nil))
        },
        LoopStage::Body => match increment {
            Some(i) => proceed(
                env,
                stack.push(FrameView::Loop { stage: LoopStage::Next, condition, increment, body }),
                FocusView::Expression(i),
            ),
            None => next_round(env, stack, condition, increment, body),
        },
    }
}

/// What `frame`, taken off the stack, does with `value`.
pub open spec fn deliver(env: EnvView, stack: Seq<FrameView>, frame: FrameView, value: ValueView) -> Step {
    match frame {
        FrameView::Sequence { statements, next } => if next < statements.len() {
            proceed(
                env,
                stack.push(FrameView::Sequence { statements, next: next + 1 }),
                FocusView::Statement(statements[next as int]),
            )
        } else {
            proceed(env, stack, FocusView::Value(ValueView::Nil))
        },
        FrameView::EndScope => proceed(env.end_scope(), stack, FocusView::Value(value)),
        FrameView::Discard => proceed(env, stack, FocusView::Value(ValueView::Nil)),
        FrameView::Print => match value {
            ValueView::Number(n) => ask(env, stack.push(FrameView::Print), RequestView::FormatNumber(n)),
            _ => Step {
                machine: MachineView { env, focus: FocusView::Value(ValueView::Nil), stack },
                action: ActionView::Print(value.text()->0),
            },
        },
        FrameView::Define { name } => proceed(
            env.define(name, value),
            stack,
            FocusView::Value(ValueView::Nil),
        ),
        FrameView::Branch { when_true, when_false } => if value.is_truthy() {
            proceed(env, stack, FocusView::Statement(when_true))
        } else {
            match when_false {
                Some(s) => proceed(env, stack, FocusView::Statement(s)),
                None => proceed(env, stack, FocusView::Value(ValueView::Nil)),
            }
        },
        FrameView::Loop { stage, condition, increment, body } => continue_loop(
            env,
            stack,
            stage,
            condition,
            increment,
            body,
            value,
        ),
        FrameView::Unary { operator } => proceed(env, stack, apply_unary(operator, value)),
        FrameView::BinaryLeft { operator, left } => proceed(
            env,
            stack.push(FrameView::BinaryApply { operator, right: value }),
            FocusView::Expression(left),
        ),
        FrameView::BinaryApply { operator, right } => apply_binary(env, stack, operator, value, right),
        FrameView::ConcatAfter { left } => match value {
            ValueView::String(s) => proceed(env, stack, FocusView::Value(ValueView::String(left + s))),
            _ => reject(env, stack),
        },
        FrameView::ConcatBefore { right } => match value {
            ValueView::String(s) => proceed(env, stack, FocusView::Value(ValueView::String(s + right))),
            _ => reject(env, stack),
        },
        FrameView::LogicalRight { operator, right } => if operator == TokenType::And {
            if value.is_truthy() {
                proceed(env, stack, FocusView::Expression(right))
            } else {
                proceed(env, stack, FocusView::Value(value))
            }
        } else if operator == TokenType::Or {
            if value.is_truthy() {
                proceed(env, stack, FocusView::Value(value))
            } else {
                proceed(env, stack, FocusView::Expression(right))
            }
        } else {
            reject(env, stack)
        },
        FrameView::Assign { name } => match env.assign(name, value) {
            Some(assigned) => proceed(assigned, stack, FocusView::Value(value)),
            None => proceed(
                env,
                stack,
                FocusView::Raise(RuntimeErrorView::undefined_variable(name)),
            ),
        },
    }
}

/// What `frame`, taken off the stack, does with an error: it is dropped, and
/// a scope that it was to close is closed.
pub open spec fn unwind(
    env: EnvView,
    stack: Seq<FrameView>,
    frame: FrameView,
    error: RuntimeErrorView,
) -> Step {
    match frame {
        FrameView::EndScope => proceed(env.end_scope(), stack, FocusView::Raise(error)),
        _ => proceed(env, stack, FocusView::Raise(error)),
    }
}

/// What an event does to a request: a number answers a request for a number,
/// a text a request for a text; any other event leaves the request standing,
/// and it is made again.
pub open spec fn answer(
    env: EnvView,
    stack: Seq<FrameView>,
    request: RequestView,
    event: EventView,
) -> Step {
    match (request, event) {
        (RequestView::ParseNumber(_), EventView::Number(n)) => proceed(
            env,
            stack,
            FocusView::Value(ValueView::Number(n)),
        ),
        (RequestView::Arithmetic(_, _, _), EventView::Number(n)) => proceed(
            env,
            stack,
            FocusView::Value(ValueView::Number(n)),
        ),
        (RequestView::FormatNumber(_), EventView::Text(t)) => proceed(
            env,
            stack,
            FocusView::Value(ValueView::String(t)),
        ),
        _ => ask(env, stack, request),
    }
}

/// The value that a run has ended with: the focus, where it is a value and
/// no frame is left.
pub open spec fn result_of(focus: FocusView, stack: Seq<FrameView>) -> Option<ValueView> {
    if stack.len() == 0 {
        match focus {
            FocusView::Value(v) => Some(v),
            _ => None,
        }
    } else {
        None
    }
}

impl MachineView {
    /// The machine that is about to execute `statements` in order.
    pub open spec fn ready(env: EnvView, statements: Seq<StmtView>) -> MachineView {
        MachineView {
            env,
            focus: FocusView::Value(ValueView::Nil),
            stack: seq![FrameView::Sequence { statements, next: 0 }],
        }
    }

    /// The machine that is about to evaluate `e`.
    pub open spec fn evaluating(env: EnvView, e: ExprView) -> MachineView {
        MachineView { env, focus: FocusView::Expression(e), stack: Seq::empty() }
    }

    /// One step. An event that answers no request is not looked at.
    pub open spec fn step(self, event: EventView) -> Step {
        match self.focus {
            FocusView::Statement(s) => start_statement(self.env, self.stack, s),
            FocusView::Expression(e) => start_expression(self.env, self.stack, e),
            FocusView::Value(v) => if self.stack.len() == 0 {
                Step { machine: self, action: ActionView::Finished(Ok(())) }
            } else {
                deliver(self.env, self.stack.drop_last(), self.stack.last(), v)
            },
            FocusView::Raise(error) => if self.stack.len() == 0 {
                Step { machine: self, action: ActionView::Finished(Err(error)) }
            } else {
                unwind(self.env, self.stack.drop_last(), self.stack.last(), error)
            },
            FocusView::Await(request) => answer(self.env, self.stack, request, event),
        }
    }

    /// Steps until an action other than `Continue` comes, but no more than
    /// `budget` further steps after the first. Only the first step sees
    /// `event`.
    pub open spec fn advance(self, event: EventView, budget: nat) -> Step
        decreases budget,
    {
        let first = self.step(event);
        if first.action is Continue && budget > 0 {
            first.machine.advance(EventView::Resume, (budget - 1) as nat)
        } else {
            first
        }
    }

    /// Whether the program has ended.
    pub open spec fn finished(self) -> bool {
        self.stack.len() == 0 && (self.focus is Value || self.focus is Raise)
    }

    /// The value that an evaluation has ended with.
    pub open spec fn result(self) -> Option<ValueView> {
        result_of(self.focus, self.stack)
    }
}

/// The number of scopes that the frames of a stack are still to close.
pub open spec fn scopes_owed(stack: Seq<FrameView>) -> nat
    decreases stack.len(),
{
    if stack.len() == 0 {
        0
    } else {
        scopes_owed(stack.drop_last()) + if stack.last() is EndScope {
            1nat
        } else {
            0nat
        }
    }
}

/// A machine is balanced over `base` when it holds `base` scopes beside those
/// that its frames are to close.
pub open spec fn balanced(machine: MachineView, base: nat) -> bool {
    base >= 1 && machine.env.depth() == base + scopes_owed(machine.stack)
}

proof fn lemma_owed_push(stack: Seq<FrameView>, frame: FrameView)
    ensures
        scopes_owed(stack.push(frame)) == scopes_owed(stack) + if frame is EndScope {
            1nat
        } else {
            0nat
        },
{
    assert(stack.push(frame).drop_last() =~= stack);
}

/// Scopes are released on every path: a step keeps a balanced machine
/// balanced, whether it opens a scope, closes one, or drops a frame on an
/// error's way out.
pub proof fn lemma_step_keeps_balance(machine: MachineView, event: EventView, base: nat)
    requires
        balanced(machine, base),
    ensures
        balanced(machine.step(event).machine, base),
{
    let env = machine.env;
    let stack = machine.stack;
    match machine.focus {
        FocusView::Statement(s) => {
            lemma_statement_keeps_balance(env, stack, s, base);
        },
        FocusView::Expression(e) => {
            lemma_expression_keeps_balance(env, stack, e, base);
        },
        FocusView::Value(v) => {
            if stack.len() > 0 {
                lemma_deliver_keeps_balance(env, stack, v, base);
            }
        },
        FocusView::Raise(error) => {},
        FocusView::Await(request) => {
            assert(balanced(answer(env, stack, request, event).machine, base));
        },
    }
}

proof fn lemma_statement_keeps_balance(env: EnvView, stack: Seq<FrameView>, s: StmtView, base: nat)
    requires
        base >= 1,
        env.depth() == base + scopes_owed(stack),
    ensures
        balanced(start_statement(env, stack, s).machine, base),
{
    match s {
        StmtView::Block(statements) => {
            lemma_owed_push(stack, FrameView::EndScope);
            lemma_owed_push(
                stack.push(FrameView::EndScope),
                FrameView::Sequence { statements, next: 0 },
            );
        },
        StmtView::For { initializer, condition, increment, body } => {
            lemma_owed_push(stack, FrameView::EndScope);
            lemma_owed_push(
                stack.push(FrameView::EndScope),
                FrameView::Loop { stage: LoopStage::Next, condition, increment, body: *body },
            );
        },
        StmtView::Var { name, initializer } => {
            lemma_owed_push(stack, FrameView::Define { name: name.lexeme });
        },
        StmtView::Expression(e) => {
            lemma_owed_push(stack, FrameView::Discard);
        },
        StmtView::Print(e) => {
            lemma_owed_push(stack, FrameView::Print);
        },
        StmtView::Conditional { condition, when_true, when_false } => {
            lemma_owed_push(stack, start_statement(env, stack, s).machine.stack.last());
        },
        StmtView::While { condition, body } => {
            lemma_owed_push(stack, start_statement(env, stack, s).machine.stack.last());
        },
    }
}

proof fn lemma_expression_keeps_balance(env: EnvView, stack: Seq<FrameView>, e: ExprView, base: nat)
    requires
        base >= 1,
        env.depth() == base + scopes_owed(stack),
    ensures
        balanced(start_expression(env, stack, e).machine, base),
{
    let after = start_expression(env, stack, e).machine.stack;
    if after != stack {
        assert(after == stack.push(after.last()));
        lemma_owed_push(stack, after.last());
    }
}

proof fn lemma_deliver_keeps_balance(env: EnvView, stack: Seq<FrameView>, v: ValueView, base: nat)
    requires
        base >= 1,
        stack.len() > 0,
        env.depth() == base + scopes_owed(stack),
    ensures
        balanced(deliver(env, stack.drop_last(), stack.last(), v).machine, base),
{
    let rest = stack.drop_last();
    let after = deliver(env, rest, stack.last(), v).machine.stack;
    if after != rest {
        assert(after == rest.push(after.last()));
        lemma_owed_push(rest, after.last());
    }
    match stack.last() {
        FrameView::Assign { name } => {
            lemma_holder(env, name);
        },
        _ => {},
    }
}

/// When a balanced machine has ended, every scope that the run opened is
/// closed again.
pub proof fn lemma_finished_balanced(machine: MachineView, base: nat)
    requires
        balanced(machine, base),
        machine.finished(),
    ensures
        machine.env.depth() == base,
{
}

/// Any number of steps keeps a balanced machine balanced.
pub proof fn lemma_advance_keeps_balance(machine: MachineView, event: EventView, budget: nat, base: nat)
    requires
        balanced(machine, base),
    ensures
        balanced(machine.advance(event, budget).machine, base),
    decreases budget,
{
    lemma_step_keeps_balance(machine, event, base);
    let first = machine.step(event);
    if first.action is Continue && budget > 0 {
        lemma_advance_keeps_balance(first.machine, EventView::Resume, (budget - 1) as nat, base);
    }
}

/// `==` and `!=` take any two values and never fail: the result is whether
/// the values are equal, or are not.
pub proof fn lemma_equality_never_fails(
    env: EnvView,
    stack: Seq<FrameView>,
    left: ValueView,
    right: ValueView,
)
    ensures
        apply_binary(env, stack, TokenType::EqualEqual, left, right) == proceed(
            env,
            stack,
            FocusView::Value(ValueView::Bool(left.equals(right))),
        ),
        apply_binary(env, stack, TokenType::BangEqual, left, right) == proceed(
            env,
            stack,
            FocusView::Value(ValueView::Bool(!left.equals(right))),
        ),
{
}

/// `!` takes any value: `!v` is whether `v` is falsy, and `!!v` is whether
/// `v` is truthy.
pub proof fn lemma_not_is_truthiness(value: ValueView)
    ensures
        apply_unary(TokenType::Bang, value) == FocusView::Value(ValueView::Bool(!value.is_truthy())),
        apply_unary(TokenType::Bang, ValueView::Bool(!value.is_truthy())) == FocusView::Value(
            ValueView::Bool(value.is_truthy()),
        ),
{
}

/// Reading a name that no scope holds fails with "undefined variable", and
/// so does assigning to it; the scope chain stays as it was.
pub proof fn lemma_undefined_variable(
    env: EnvView,
    stack: Seq<FrameView>,
    name: crate::frontend::token::TokenView,
    value: ValueView,
)
    requires
        env.get(name.lexeme) is None,
    ensures
        start_expression(env, stack, ExprView::Variable { name }) == proceed(
            env,
            stack,
            FocusView::Raise(RuntimeErrorView::undefined_variable(name.lexeme)),
        ),
        deliver(env, stack, FrameView::Assign { name: name.lexeme }, value) == proceed(
            env,
            stack,
            FocusView::Raise(RuntimeErrorView::undefined_variable(name.lexeme)),
        ),
{
}

} // verus!
