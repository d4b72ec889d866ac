//! What an expression evaluates to, stated directly, and the proof that the
//! machine computes it.
//!
//! The caller's part is modelled by a host: three functions that give the
//! value of a number literal, the result of an arithmetic operation, and the
//! display form of a number. The machine is run against a host by answering
//! each request with what the host gives.

use crate::ast::expr::ExprView;
use crate::ast::stmt::StmtView;
use crate::backend::environment::{lemma_definition_scoped, lemma_scope_closed, EnvView};
use crate::backend::machine::{
    apply_binary, arithmetic_of, balanced, comparison_of, lemma_step_keeps_balance, next_round,
    proceed, ActionView, ArithOp, EventView, FocusView, FrameView, LoopStage, MachineView,
    RequestView,
};
use crate::backend::number::Number;
use crate::backend::runtime_error::RuntimeErrorView;
use crate::backend::value::ValueView;
use crate::frontend::token::TokenType;
use vstd::prelude::*;

verus! {

/// The caller's part of the work, as three functions.
pub struct HostView {
    /// The value of the number literal of a text.
    pub parse: spec_fn(Seq<char>) -> Number,
    /// The result of an operation on two numbers, left operand first.
    pub compute: spec_fn(ArithOp, Number, Number) -> Number,
    /// The display form of a number.
    pub format: spec_fn(Number) -> Seq<char>,
}

impl HostView {
    /// The host's answer to a request.
    pub open spec fn answer(self, request: RequestView) -> EventView {
        match request {
            RequestView::ParseNumber(lexeme) => EventView::Number((self.parse)(lexeme)),
            RequestView::Arithmetic(op, left, right) => EventView::Number(
                (self.compute)(op, left, right),
            ),
            RequestView::FormatNumber(n) => EventView::Text((self.format)(n)),
        }
    }

    /// The display form of a value: that of a number is the host's.
    pub open spec fn display(self, value: ValueView) -> Seq<char> {
        match value {
            ValueView::Number(n) => (self.format)(n),
            _ => value.text()->0,
        }
    }
}

impl MachineView {
    /// The event that a host hands to the machine's next step: its answer
    /// where the machine waits for one.
    pub open spec fn event_from(self, host: HostView) -> EventView {
        match self.focus {
            FocusView::Await(request) => host.answer(request),
            _ => EventView::Resume,
        }
    }

    /// The machine after `steps` steps against `host`.
    pub open spec fn run(self, host: HostView, steps: nat) -> MachineView
        decreases steps,
    {
        if steps == 0 {
            self
        } else {
            self.step(self.event_from(host)).machine.run(host, (steps - 1) as nat)
        }
    }

    /// The lines that the machine prints in `steps` steps against `host`.
    pub open spec fn printed(self, host: HostView, steps: nat) -> Seq<Seq<char>>
        decreases steps,
    {
        if steps == 0 {
            Seq::empty()
        } else {
            let first = self.step(self.event_from(host));
            lines_of(first.action) + first.machine.printed(host, (steps - 1) as nat)
        }
    }

    /// Whether the machine, in `steps` steps against `host`, becomes `end`
    /// and prints `output`.
    pub open spec fn reaches(
        self,
        host: HostView,
        steps: nat,
        end: MachineView,
        output: Seq<Seq<char>>,
    ) -> bool {
        self.run(host, steps) == end && self.printed(host, steps) == output
    }
}

/// The lines that an action has the caller print: one or none.
pub open spec fn lines_of(action: ActionView) -> Seq<Seq<char>> {
    match action {
        ActionView::Print(line) => seq![line],
        _ => Seq::empty(),
    }
}

/// What evaluating an expression gives: a value or an error, and the scope
/// chain as assignments have left it.
pub struct Evaluated {
    pub result: Result<ValueView, RuntimeErrorView>,
    pub env: EnvView,
}

/// The focus of a machine that has just obtained `result`.
pub open spec fn focus_of(result: Result<ValueView, RuntimeErrorView>) -> FocusView {
    match result {
        Ok(value) => FocusView::Value(value),
        Err(error) => FocusView::Raise(error),
    }
}

/// A prefix operator applied to a value.
pub open spec fn unary_value(operator: TokenType, value: ValueView) -> Result<
    ValueView,
    RuntimeErrorView,
> {
    match (operator, value) {
        (TokenType::Minus, ValueView::Number(n)) => Ok(ValueView::Number(n.negated())),
        (TokenType::Bang, v) => Ok(ValueView::Bool(!v.is_truthy())),
        _ => Err(RuntimeErrorView::invalid_operation()),
    }
}

/// An infix operator applied to two values.
///
/// `==` and `!=` compare any two values. On two numbers, `+ - * /` give the
/// host's result and `> >= < <=` compare. `+` with a string on either side
/// concatenates the string and the display form of the other operand, in
/// their order. Anything else is an invalid operation.
pub open spec fn binary_value(
    operator: TokenType,
    left: ValueView,
    right: ValueView,
    host: HostView,
) -> Result<ValueView, RuntimeErrorView> {
    if operator == TokenType::EqualEqual {
        Ok(ValueView::Bool(left.equals(right)))
    } else if operator == TokenType::BangEqual {
        Ok(ValueView::Bool(!left.equals(right)))
    } else {
        match (left, right) {
            (ValueView::Number(l), ValueView::Number(r)) => match arithmetic_of(operator) {
                Some(op) => Ok(ValueView::Number((host.compute)(op, l, r))),
                None => match comparison_of(operator, l, r) {
                    Some(b) => Ok(ValueView::Bool(b)),
                    None => Err(RuntimeErrorView::invalid_operation()),
                },
            },
            (ValueView::String(l), _) => if operator == TokenType::Plus {
                Ok(ValueView::String(l + host.display(right)))
            } else {
                Err(RuntimeErrorView::invalid_operation())
            },
            (_, ValueView::String(r)) => if operator == TokenType::Plus {
                Ok(ValueView::String(host.display(left) + r))
            } else {
                Err(RuntimeErrorView::invalid_operation())
            },
            _ => Err(RuntimeErrorView::invalid_operation()),
        }
    }
}

/// What `e` evaluates to in `env`.
///
/// A literal is its value and a grouping the value of what it holds. The
/// operand of a prefix operator is evaluated, then the operator applied. Of
/// the operands of an infix operator the right one is evaluated first. `and`
/// and `or` evaluate their left operand and give it back if it decides,
/// without evaluating the right one; else they give the right operand's
/// value. A name is read from the scope chain. An assignment evaluates its
/// right side, rebinds the name and gives the assigned value. The first error
/// ends the evaluation.
pub open spec fn eval(e: ExprView, env: EnvView, host: HostView) -> Evaluated
    decreases e,
{
    match e {
        ExprView::BoolLiteral(b) => Evaluated { result: Ok(ValueView::Bool(b)), env },
        ExprView::NumberLiteral(lexeme) => Evaluated {
            result: Ok(ValueView::Number((host.parse)(lexeme))),
            env,
        },
        ExprView::StringLiteral(s) => Evaluated { result: Ok(ValueView::String(s)), env },
        ExprView::Nil => Evaluated { result: Ok(ValueView::Nil), env },
        ExprView::Grouping(inner) => eval(*inner, env, host),
        ExprView::Unary { operator, right } => {
            let operand = eval(*right, env, host);
            match operand.result {
                Err(_) => operand,
                Ok(value) => Evaluated {
                    result: unary_value(operator.token_type, value),
                    env: operand.env,
                },
            }
        },
        ExprView::Binary { left, operator, right } => {
            let second = eval(*right, env, host);
            match second.result {
                Err(_) => second,
                Ok(r) => {
                    let first = eval(*left, second.env, host);
                    match first.result {
                        Err(_) => first,
                        Ok(l) => Evaluated {
                            result: binary_value(operator.token_type, l, r, host),
                            env: first.env,
                        },
                    }
                },
            }
        },
        ExprView::Logical { left, operator, right } => if operator.token_type == TokenType::And
            || operator.token_type == TokenType::Or {
            let first = eval(*left, env, host);
            match first.result {
                Err(_) => first,
                Ok(l) => if l.is_truthy() == (operator.token_type == TokenType::Or) {
                    first
                } else {
                    eval(*right, first.env, host)
                },
            }
        } else {
            Evaluated { result: Err(RuntimeErrorView::invalid_operation()), env }
        },
        ExprView::Variable { name } => Evaluated {
            result: match env.get(name.lexeme) {
                Some(value) => Ok(value),
                None => Err(RuntimeErrorView::undefined_variable(name.lexeme)),
            },
            env,
        },
        ExprView::Assignment { name, value } => {
            let assigned = eval(*value, env, host);
            match assigned.result {
                Err(_) => assigned,
                Ok(v) => match assigned.env.assign(name.lexeme, v) {
                    Some(after) => Evaluated { result: Ok(v), env: after },
                    None => Evaluated {
                        result: Err(RuntimeErrorView::undefined_variable(name.lexeme)),
                        env: assigned.env,
                    },
                },
            }
        },
    }
}

/// The machine that has `focus` before it.
pub open spec fn state(env: EnvView, focus: FocusView, stack: Seq<FrameView>) -> MachineView {
    MachineView { env, focus, stack }
}

/// What executing a statement gives: success or an error, the scope chain
/// afterwards, and the lines printed.
pub struct Executed {
    pub result: Result<(), RuntimeErrorView>,
    pub env: EnvView,
    pub output: Seq<Seq<char>>,
}

/// The focus of a machine that has just executed a statement.
pub open spec fn settled(x: Executed) -> FocusView {
    match x.result {
        Ok(_) => FocusView::Value(ValueView::Nil),
        Err(error) => FocusView::Raise(error),
    }
}

/// The result with which a run ends.
pub open spec fn dropped_result(x: Executed) -> Result<(), RuntimeErrorView> {
    match x.result {
        Ok(_) => Ok(()),
        Err(error) => Err(error),
    }
}

/// An evaluation whose value is dropped.
pub open spec fn dropped(e: Evaluated) -> Executed {
    Executed {
        result: match e.result {
            Ok(_) => Ok(()),
            Err(error) => Err(error),
        },
        env: e.env,
        output: Seq::empty(),
    }
}

/// The same, with the innermost scope closed.
pub open spec fn closing(x: Option<Executed>) -> Option<Executed> {
    match x {
        Some(x) => Some(Executed { result: x.result, env: x.env.end_scope(), output: x.output }),
        None => None,
    }
}

/// What `rest` gives after `first` has printed its lines.
pub open spec fn following(first: Executed, rest: Option<Executed>) -> Option<Executed> {
    match rest {
        Some(x) => Some(
            Executed { result: x.result, env: x.env, output: first.output + x.output },
        ),
        None => None,
    }
}

/// What executing `s` in `env` gives, if no loop goes round more than `fuel`
/// times; nothing if one does.
///
/// An expression statement evaluates and drops the value. `print` prints the
/// display form of the value. `var` binds the name in the innermost scope,
/// to `nil` where there is no initializer. A block runs its statements in a
/// scope of its own, which is closed whether they succeed or fail. `if` runs
/// the branch that the truthiness of its condition chooses. `while` tests
/// its condition before each round. `for` runs in a scope of its own: the
/// initializer once, then rounds of condition (true if left out), body and
/// increment. The first error ends the execution.
pub open spec fn exec(s: StmtView, env: EnvView, host: HostView, fuel: nat) -> Option<Executed>
    decreases fuel, s, 0nat,
{
    match s {
        StmtView::Expression(e) => Some(dropped(eval(e, env, host))),
        StmtView::Print(e) => {
            let value = eval(e, env, host);
            Some(
                Executed {
                    result: dropped(value).result,
                    env: value.env,
                    output: match value.result {
                        Ok(v) => seq![host.display(v)],
                        Err(_) => Seq::empty(),
                    },
                },
            )
        },
        StmtView::Var { name, initializer } => match initializer {
            Some(e) => {
                let value = eval(e, env, host);
                Some(
                    Executed {
                        result: dropped(value).result,
                        env: match value.result {
                            Ok(v) => value.env.define(name.lexeme, v),
                            Err(_) => value.env,
                        },
                        output: Seq::empty(),
                    },
                )
            },
            None => Some(
                Executed {
                    result: Ok(()),
                    env: env.define(name.lexeme, ValueView::Nil),
                    output: Seq::empty(),
                },
            ),
        },
        StmtView::Block(statements) => closing(
            exec_sequence(statements, 0, env.begin_scope(), host, fuel),
        ),
        StmtView::Conditional { condition, when_true, when_false } => {
            let test = eval(condition, env, host);
            match test.result {
                Err(_) => Some(dropped(test)),
                Ok(v) => if v.is_truthy() {
                    exec(*when_true, test.env, host, fuel)
                } else {
                    match when_false {
                        Some(otherwise) => exec(*otherwise, test.env, host, fuel),
                        None => Some(dropped(test)),
                    }
                },
            }
        },
        StmtView::While { condition, body } => exec_loop(
            Some(condition),
            None,
            *body,
            env,
            host,
            fuel,
        ),
        StmtView::For { initializer, condition, increment, body } => closing(
            match initializer {
                Some(first) => match exec(*first, env.begin_scope(), host, fuel) {
                    None => None,
                    Some(x) => match x.result {
                        Err(_) => Some(x),
                        Ok(_) => following(
                            x,
                            exec_loop(condition, increment, *body, x.env, host, fuel),
                        ),
                    },
                },
                None => exec_loop(condition, increment, *body, env.begin_scope(), host, fuel),
            },
        ),
    }
}

/// What the rounds of a loop give: the condition is tested, true where
/// there is none, and while it is truthy a round follows.
pub open spec fn exec_loop(
    condition: Option<ExprView>,
    increment: Option<ExprView>,
    body: StmtView,
    env: EnvView,
    host: HostView,
    fuel: nat,
) -> Option<Executed>
    decreases fuel, body, 2nat,
{
    let test = match condition {
        Some(c) => eval(c, env, host),
        None => Evaluated { result: Ok(ValueView::Bool(true)), env },
    };
    match test.result {
        Err(_) => Some(dropped(test)),
        Ok(v) => if v.is_truthy() {
            exec_round(condition, increment, body, test.env, host, fuel)
        } else {
            Some(dropped(test))
        },
    }
}

/// What a round of a loop and the rounds after it give: the body is
/// executed, then the increment evaluated, then the loop gone round again.
pub open spec fn exec_round(
    condition: Option<ExprView>,
    increment: Option<ExprView>,
    body: StmtView,
    env: EnvView,
    host: HostView,
    fuel: nat,
) -> Option<Executed>
    decreases fuel, body, 1nat,
{
    match exec(body, env, host, fuel) {
        None => None,
        Some(round) => match round.result {
            Err(_) => Some(round),
            Ok(_) => {
                let stepped = match increment {
                    Some(i) => eval(i, round.env, host),
                    None => Evaluated { result: Ok(ValueView::Nil), env: round.env },
                };
                match stepped.result {
                    Err(error) => Some(
                        Executed { result: Err(error), env: stepped.env, output: round.output },
                    ),
                    Ok(_) => if fuel == 0 {
                        None
                    } else {
                        following(
                            round,
                            exec_loop(
                                condition,
                                increment,
                                body,
                                stepped.env,
                                host,
                                (fuel - 1) as nat,
                            ),
                        )
                    },
                }
            },
        },
    }
}

/// What the statements from `from` on give, run in order.
pub open spec fn exec_sequence(
    statements: Seq<StmtView>,
    from: nat,
    env: EnvView,
    host: HostView,
    fuel: nat,
) -> Option<Executed>
    decreases fuel, statements, statements.len() - from,
{
    if from >= statements.len() {
        Some(Executed { result: Ok(()), env, output: Seq::empty() })
    } else {
        match exec(statements[from as int], env, host, fuel) {
            None => None,
            Some(x) => match x.result {
                Err(_) => Some(x),
                Ok(_) => following(x, exec_sequence(statements, from + 1, x.env, host, fuel)),
            },
        }
    }
}

/// Running `a` steps and then `b` steps is running `a + b` steps.
pub proof fn lemma_run_add(machine: MachineView, host: HostView, a: nat, b: nat)
    ensures
        machine.run(host, a + b) == machine.run(host, a).run(host, b),
        machine.printed(host, a + b) == machine.printed(host, a) + machine.run(host, a).printed(
            host,
            b,
        ),
    decreases a,
{
    if a > 0 {
        let next = machine.step(machine.event_from(host));
        lemma_run_add(next.machine, host, (a - 1) as nat, b);
        assert(machine.printed(host, a + b) =~= machine.printed(host, a) + machine.run(
            host,
            a,
        ).printed(host, b));
    } else {
        assert(machine.printed(host, a + b) =~= machine.printed(host, a) + machine.run(
            host,
            a,
        ).printed(host, b));
    }
}

/// A machine that reaches a state, which reaches another, reaches that one.
proof fn lemma_chain(
    a: MachineView,
    host: HostView,
    n: nat,
    b: MachineView,
    first: Seq<Seq<char>>,
    m: nat,
    c: MachineView,
    second: Seq<Seq<char>>,
)
    requires
        a.reaches(host, n, b, first),
        b.reaches(host, m, c, second),
    ensures
        a.reaches(host, n + m, c, first + second),
{
    lemma_run_add(a, host, n, m);
}

/// The same, where nothing is printed.
proof fn lemma_chain_quiet(a: MachineView, host: HostView, n: nat, b: MachineView, m: nat, c: MachineView)
    requires
        a.reaches(host, n, b, Seq::empty()),
        b.reaches(host, m, c, Seq::empty()),
    ensures
        a.reaches(host, n + m, c, Seq::empty()),
{
    lemma_run_add(a, host, n, m);
    assert(Seq::<Seq<char>>::empty() + Seq::<Seq<char>>::empty() =~= Seq::<Seq<char>>::empty());
}

/// One step.
proof fn lemma_one(a: MachineView, host: HostView)
    ensures
        a.reaches(
            host,
            1,
            a.step(a.event_from(host)).machine,
            lines_of(a.step(a.event_from(host)).action),
        ),
{
    reveal_with_fuel(MachineView::run, 2);
    reveal_with_fuel(MachineView::printed, 2);
    let first = a.step(a.event_from(host));
    assert(lines_of(first.action) + Seq::<Seq<char>>::empty() =~= lines_of(first.action));
}

/// A frame that has just been pushed is the one on top.
proof fn lemma_pushed(stack: Seq<FrameView>, frame: FrameView)
    ensures
        stack.push(frame).len() > 0,
        stack.push(frame).last() == frame,
        stack.push(frame).drop_last() == stack,
{
    assert(stack.push(frame).drop_last() =~= stack);
}

/// When the machine has applied an infix operator to two values, it reaches
/// their result in at most two further steps, with the stack as it was.
proof fn lemma_binary_settles(
    env: EnvView,
    stack: Seq<FrameView>,
    operator: TokenType,
    left: ValueView,
    right: ValueView,
    host: HostView,
) -> (steps: nat)
    ensures
        apply_binary(env, stack, operator, left, right).machine.reaches(
            host,
            steps,
            state(env, focus_of(binary_value(operator, left, right, host)), stack),
            Seq::empty(),
        ),
{
    let applied = apply_binary(env, stack, operator, left, right).machine;
    match applied.focus {
        FocusView::Await(RequestView::Arithmetic(_, _, _)) => {
            lemma_one(applied, host);
            1
        },
        FocusView::Await(RequestView::FormatNumber(n)) => {
            lemma_pushed(stack, applied.stack.last());
            lemma_one(applied, host);
            let answered = applied.step(applied.event_from(host)).machine;
            lemma_one(answered, host);
            lemma_chain_quiet(
                applied,
                host,
                1,
                answered,
                1,
                answered.step(answered.event_from(host)).machine,
            );
            2
        },
        _ => 0,
    }
}

/// One step, then what the state after it reaches.
proof fn lemma_step_then(
    a: MachineView,
    host: HostView,
    m: nat,
    c: MachineView,
    output: Seq<Seq<char>>,
)
    requires
        a.step(a.event_from(host)).machine.reaches(host, m, c, output),
    ensures
        a.reaches(host, 1 + m, c, lines_of(a.step(a.event_from(host)).action) + output),
{
    lemma_one(a, host);
    lemma_chain(
        a,
        host,
        1,
        a.step(a.event_from(host)).machine,
        lines_of(a.step(a.event_from(host)).action),
        m,
        c,
        output,
    );
}

/// What a state reaches, then one step.
proof fn lemma_then_step(a: MachineView, host: HostView, n: nat, b: MachineView, output: Seq<Seq<char>>)
    requires
        a.reaches(host, n, b, output),
    ensures
        a.reaches(
            host,
            n + 1,
            b.step(b.event_from(host)).machine,
            output + lines_of(b.step(b.event_from(host)).action),
        ),
{
    lemma_one(b, host);
    lemma_chain(
        a,
        host,
        n,
        b,
        output,
        1,
        b.step(b.event_from(host)).machine,
        lines_of(b.step(b.event_from(host)).action),
    );
}

proof fn lemma_quiet(output: Seq<Seq<char>>)
    ensures
        Seq::<Seq<char>>::empty() + output == output,
        output + Seq::<Seq<char>>::empty() == output,
{
    assert(Seq::<Seq<char>>::empty() + output =~= output);
    assert(output + Seq::<Seq<char>>::empty() =~= output);
}

/// The machine evaluates an expression as `eval` says: from an expression
/// in focus it reaches, after some number of steps against the host, the
/// expression's value in focus, or its error, over the same stack, with the
/// scope chain that the evaluation leaves, and prints nothing on the way.
pub proof fn lemma_machine_evaluates(e: ExprView, env: EnvView, stack: Seq<FrameView>, host: HostView) -> (steps: nat)
    ensures
        state(env, FocusView::Expression(e), stack).reaches(
            host,
            steps,
            state(eval(e, env, host).env, focus_of(eval(e, env, host).result), stack),
            Seq::empty(),
        ),
    decreases e,
{
    let start = state(env, FocusView::Expression(e), stack);
    let quiet = Seq::<Seq<char>>::empty();
    lemma_quiet(quiet);
    lemma_one(start, host);
    let second = start.step(start.event_from(host)).machine;
    match e {
        ExprView::BoolLiteral(_) => 1,
        ExprView::StringLiteral(_) => 1,
        ExprView::Nil => 1,
        ExprView::NumberLiteral(_) => {
            lemma_then_step(start, host, 1, second, quiet);
            2
        },
        ExprView::Variable { name } => 1,
        ExprView::Grouping(inner) => {
            let n = lemma_machine_evaluates(*inner, env, stack, host);
            lemma_step_then(start, host, n, second.run(host, n), quiet);
            1 + n
        },
        ExprView::Unary { operator, right } => {
            let frame = FrameView::Unary { operator: operator.token_type };
            lemma_pushed(stack, frame);
            let n = lemma_machine_evaluates(*right, env, stack.push(frame), host);
            let third = second.run(host, n);
            lemma_step_then(start, host, n, third, quiet);
            lemma_then_step(start, host, 1 + n, third, quiet);
            1 + n + 1
        },
        ExprView::Assignment { name, value } => {
            let frame = FrameView::Assign { name: name.lexeme };
            lemma_pushed(stack, frame);
            let n = lemma_machine_evaluates(*value, env, stack.push(frame), host);
            let third = second.run(host, n);
            lemma_step_then(start, host, n, third, quiet);
            lemma_then_step(start, host, 1 + n, third, quiet);
            1 + n + 1
        },
        ExprView::Logical { left, operator, right } => {
            if operator.token_type == TokenType::And || operator.token_type == TokenType::Or {
                let frame = FrameView::LogicalRight { operator: operator.token_type, right: *right };
                lemma_pushed(stack, frame);
                let n = lemma_machine_evaluates(*left, env, stack.push(frame), host);
                let third = second.run(host, n);
                lemma_step_then(start, host, n, third, quiet);
                lemma_then_step(start, host, 1 + n, third, quiet);
                let fourth = third.step(third.event_from(host)).machine;
                let first = eval(*left, env, host);
                match first.result {
                    Err(_) => 1 + n + 1,
                    Ok(l) => {
                        if l.is_truthy() == (operator.token_type == TokenType::Or) {
                            1 + n + 1
                        } else {
                            let m = lemma_machine_evaluates(*right, first.env, stack, host);
                            lemma_chain_quiet(start, host, 1 + n + 1, fourth, m, fourth.run(host, m));
                            1 + n + 1 + m
                        }
                    },
                }
            } else {
                1
            }
        },
        ExprView::Binary { left, operator, right } => {
            let op = operator.token_type;
            let waiting = FrameView::BinaryLeft { operator: op, left: *left };
            lemma_pushed(stack, waiting);
            let n = lemma_machine_evaluates(*right, env, stack.push(waiting), host);
            let third = second.run(host, n);
            lemma_step_then(start, host, n, third, quiet);
            lemma_then_step(start, host, 1 + n, third, quiet);
            let fourth = third.step(third.event_from(host)).machine;
            let second_operand = eval(*right, env, host);
            match second_operand.result {
                Err(_) => 1 + n + 1,
                Ok(r) => {
                    let applying = FrameView::BinaryApply { operator: op, right: r };
                    lemma_pushed(stack, applying);
                    let m = lemma_machine_evaluates(
                        *left,
                        second_operand.env,
                        stack.push(applying),
                        host,
                    );
                    let fifth = fourth.run(host, m);
                    lemma_chain_quiet(start, host, 1 + n + 1, fourth, m, fifth);
                    lemma_then_step(start, host, 1 + n + 1 + m, fifth, quiet);
                    let sixth = fifth.step(fifth.event_from(host)).machine;
                    let first_operand = eval(*left, second_operand.env, host);
                    match first_operand.result {
                        Err(_) => 1 + n + 1 + m + 1,
                        Ok(l) => {
                            let k = lemma_binary_settles(first_operand.env, stack, op, l, r, host);
                            lemma_chain_quiet(
                                start,
                                host,
                                1 + n + 1 + m + 1,
                                sixth,
                                k,
                                sixth.run(host, k),
                            );
                            1 + n + 1 + m + 1 + k
                        },
                    }
                },
            }
        },
    }
}

/// One step into an expression, and its evaluation.
proof fn lemma_via_expression(
    start: MachineView,
    host: HostView,
    e: ExprView,
    env: EnvView,
    above: Seq<FrameView>,
) -> (steps: nat)
    requires
        start.step(start.event_from(host)) == proceed(env, above, FocusView::Expression(e)),
    ensures
        start.reaches(
            host,
            steps,
            state(eval(e, env, host).env, focus_of(eval(e, env, host).result), above),
            Seq::empty(),
        ),
{
    let n = lemma_machine_evaluates(e, env, above, host);
    lemma_quiet(Seq::empty());
    lemma_step_then(
        start,
        host,
        n,
        state(eval(e, env, host).env, focus_of(eval(e, env, host).result), above),
        Seq::empty(),
    );
    1 + n
}

/// An error leaves through a frame that is no scope's end in one step.
proof fn lemma_error_leaves(
    start: MachineView,
    host: HostView,
    n: nat,
    env: EnvView,
    error: RuntimeErrorView,
    stack: Seq<FrameView>,
    frame: FrameView,
    output: Seq<Seq<char>>,
)
    requires
        start.reaches(host, n, state(env, FocusView::Raise(error), stack.push(frame)), output),
    ensures
        start.reaches(
            host,
            n + 1,
            state(
                if frame is EndScope {
                    env.end_scope()
                } else {
                    env
                },
                FocusView::Raise(error),
                stack,
            ),
            output,
        ),
{
    lemma_pushed(stack, frame);
    lemma_quiet(output);
    lemma_then_step(start, host, n, state(env, FocusView::Raise(error), stack.push(frame)), output);
}

/// The machine executes a statement as `exec` says: from a statement in
/// focus it reaches, after some number of steps against the host, the state
/// in which the statement is done, or has failed, over the same stack, with
/// the scope chain that the execution leaves, and has printed the
/// statement's lines.
pub proof fn lemma_machine_executes(
    s: StmtView,
    env: EnvView,
    stack: Seq<FrameView>,
    host: HostView,
    fuel: nat,
) -> (steps: nat)
    requires
        exec(s, env, host, fuel) is Some,
    ensures
        state(env, FocusView::Statement(s), stack).reaches(
            host,
            steps,
            state(
                exec(s, env, host, fuel)->0.env,
                settled(exec(s, env, host, fuel)->0),
                stack,
            ),
            exec(s, env, host, fuel)->0.output,
        ),
    decreases fuel, s, 0nat,
{
    let start = state(env, FocusView::Statement(s), stack);
    let quiet = Seq::<Seq<char>>::empty();
    let x = exec(s, env, host, fuel)->0;
    lemma_quiet(quiet);
    lemma_quiet(x.output);
    lemma_one(start, host);
    let second = start.step(start.event_from(host)).machine;
    match s {
        StmtView::Expression(e) => {
            let frame = FrameView::Discard;
            lemma_pushed(stack, frame);
            let n = lemma_via_expression(start, host, e, env, stack.push(frame));
            let value = eval(e, env, host);
            lemma_then_step(
                start,
                host,
                n,
                state(value.env, focus_of(value.result), stack.push(frame)),
                quiet,
            );
            n + 1
        },
        StmtView::Print(e) => {
            let frame = FrameView::Print;
            lemma_pushed(stack, frame);
            let n = lemma_via_expression(start, host, e, env, stack.push(frame));
            let value = eval(e, env, host);
            let third = state(value.env, focus_of(value.result), stack.push(frame));
            lemma_then_step(start, host, n, third, quiet);
            match value.result {
                Ok(ValueView::Number(number)) => {
                    let asked = third.step(third.event_from(host)).machine;
                    lemma_then_step(start, host, n + 1, asked, quiet);
                    let answered = asked.step(asked.event_from(host)).machine;
                    lemma_then_step(start, host, n + 2, answered, quiet);
                    lemma_quiet(seq![(host.format)(number)]);
                    n + 3
                },
                Ok(v) => {
                    lemma_quiet(seq![host.display(v)]);
                    n + 1
                },
                Err(_) => n + 1,
            }
        },
        StmtView::Var { name, initializer } => match initializer {
            Some(e) => {
                let frame = FrameView::Define { name: name.lexeme };
                lemma_pushed(stack, frame);
                let n = lemma_via_expression(start, host, e, env, stack.push(frame));
                let value = eval(e, env, host);
                lemma_then_step(
                    start,
                    host,
                    n,
                    state(value.env, focus_of(value.result), stack.push(frame)),
                    quiet,
                );
                n + 1
            },
            None => 1,
        },
        StmtView::Block(statements) => {
            let inner = exec_sequence(statements, 0, env.begin_scope(), host, fuel)->0;
            let below = stack.push(FrameView::EndScope);
            let k = lemma_machine_sequence(
                statements,
                0,
                env.begin_scope(),
                below,
                host,
                fuel,
                ValueView::Nil,
            );
            let third = state(inner.env, settled(inner), below);
            lemma_quiet(inner.output);
            lemma_step_then(start, host, k, third, inner.output);
            lemma_pushed(stack, FrameView::EndScope);
            lemma_then_step(start, host, 1 + k, third, inner.output);
            1 + k + 1
        },
        StmtView::Conditional { condition, when_true, when_false } => {
            let frame = FrameView::Branch {
                when_true: *when_true,
                when_false: match when_false {
                    Some(otherwise) => Some(*otherwise),
                    None => None,
                },
            };
            lemma_pushed(stack, frame);
            let n = lemma_via_expression(start, host, condition, env, stack.push(frame));
            let test = eval(condition, env, host);
            let third = state(test.env, focus_of(test.result), stack.push(frame));
            lemma_then_step(start, host, n, third, quiet);
            let fourth = third.step(third.event_from(host)).machine;
            match test.result {
                Err(_) => n + 1,
                Ok(v) => {
                    if v.is_truthy() {
                        let m = lemma_machine_executes(*when_true, test.env, stack, host, fuel);
                        lemma_chain(start, host, n + 1, fourth, quiet, m, fourth.run(host, m), x.output);
                        n + 1 + m
                    } else {
                        match when_false {
                            Some(otherwise) => {
                                let m = lemma_machine_executes(
                                    *otherwise,
                                    test.env,
                                    stack,
                                    host,
                                    fuel,
                                );
                                lemma_chain(
                                    start,
                                    host,
                                    n + 1,
                                    fourth,
                                    quiet,
                                    m,
                                    fourth.run(host, m),
                                    x.output,
                                );
                                n + 1 + m
                            },
                            None => n + 1,
                        }
                    }
                },
            }
        },
        StmtView::While { condition, body } => {
            let frame = FrameView::Loop {
                stage: LoopStage::Next,
                condition: Some(condition),
                increment: None,
                body: *body,
            };
            lemma_pushed(stack, frame);
            lemma_then_step(start, host, 1, second, quiet);
            let third = second.step(second.event_from(host)).machine;
            let k = lemma_machine_loops(Some(condition), None, *body, env, stack, host, fuel);
            lemma_chain(start, host, 2, third, quiet, k, third.run(host, k), x.output);
            2 + k
        },
        StmtView::For { initializer, condition, increment, body } => {
            let below = stack.push(FrameView::EndScope);
            let frame = FrameView::Loop {
                stage: LoopStage::Next,
                condition,
                increment,
                body: *body,
            };
            let scoped = env.begin_scope();
            lemma_pushed(below, frame);
            lemma_pushed(stack, FrameView::EndScope);
            match initializer {
                Some(first) => {
                    let y = exec(*first, scoped, host, fuel)->0;
                    lemma_quiet(y.output);
                    let n = lemma_machine_executes(*first, scoped, below.push(frame), host, fuel);
                    let third = state(y.env, settled(y), below.push(frame));
                    lemma_step_then(start, host, n, third, y.output);
                    match y.result {
                        Err(error) => {
                            lemma_error_leaves(start, host, 1 + n, y.env, error, below, frame, y.output);
                            lemma_error_leaves(
                                start,
                                host,
                                1 + n + 1,
                                y.env,
                                error,
                                stack,
                                FrameView::EndScope,
                                y.output,
                            );
                            1 + n + 1 + 1
                        },
                        Ok(_) => {
                            lemma_then_step(start, host, 1 + n, third, y.output);
                            let fourth = third.step(third.event_from(host)).machine;
                            let rounds = exec_loop(condition, increment, *body, y.env, host, fuel)->0;
                            let k = lemma_machine_loops(
                                condition,
                                increment,
                                *body,
                                y.env,
                                below,
                                host,
                                fuel,
                            );
                            let fifth = state(rounds.env, settled(rounds), below);
                            lemma_chain(start, host, 1 + n + 1, fourth, y.output, k, fifth, rounds.output);
                            lemma_quiet(y.output + rounds.output);
                            lemma_then_step(start, host, 1 + n + 1 + k, fifth, y.output + rounds.output);
                            1 + n + 1 + k + 1
                        },
                    }
                },
                None => {
                    lemma_then_step(start, host, 1, second, quiet);
                    let third = second.step(second.event_from(host)).machine;
                    let rounds = exec_loop(condition, increment, *body, scoped, host, fuel)->0;
                    let k = lemma_machine_loops(condition, increment, *body, scoped, below, host, fuel);
                    let fourth = state(rounds.env, settled(rounds), below);
                    lemma_quiet(rounds.output);
                    lemma_chain(start, host, 2, third, quiet, k, fourth, rounds.output);
                    lemma_then_step(start, host, 2 + k, fourth, rounds.output);
                    2 + k + 1
                },
            }
        },
    }
}

/// The machine runs the rest of a sequence of statements as `exec_sequence`
/// says.
pub proof fn lemma_machine_sequence(
    statements: Seq<StmtView>,
    from: nat,
    env: EnvView,
    stack: Seq<FrameView>,
    host: HostView,
    fuel: nat,
    value: ValueView,
) -> (steps: nat)
    requires
        exec_sequence(statements, from, env, host, fuel) is Some,
    ensures
        state(
            env,
            FocusView::Value(value),
            stack.push(FrameView::Sequence { statements, next: from }),
        ).reaches(
            host,
            steps,
            state(
                exec_sequence(statements, from, env, host, fuel)->0.env,
                settled(exec_sequence(statements, from, env, host, fuel)->0),
                stack,
            ),
            exec_sequence(statements, from, env, host, fuel)->0.output,
        ),
    decreases fuel, statements, statements.len() - from,
{
    let here = FrameView::Sequence { statements, next: from };
    let start = state(env, FocusView::Value(value), stack.push(here));
    let quiet = Seq::<Seq<char>>::empty();
    lemma_quiet(quiet);
    lemma_pushed(stack, here);
    lemma_one(start, host);
    if from >= statements.len() {
        1
    } else {
        let next = FrameView::Sequence { statements, next: from + 1 };
        lemma_pushed(stack, next);
        let x = exec(statements[from as int], env, host, fuel)->0;
        lemma_quiet(x.output);
        let n = lemma_machine_executes(statements[from as int], env, stack.push(next), host, fuel);
        let third = state(x.env, settled(x), stack.push(next));
        lemma_step_then(start, host, n, third, x.output);
        match x.result {
            Err(error) => {
                lemma_error_leaves(start, host, 1 + n, x.env, error, stack, next, x.output);
                1 + n + 1
            },
            Ok(_) => {
                let rest = exec_sequence(statements, from + 1, x.env, host, fuel)->0;
                let m = lemma_machine_sequence(
                    statements,
                    from + 1,
                    x.env,
                    stack,
                    host,
                    fuel,
                    ValueView::Nil,
                );
                lemma_chain(
                    start,
                    host,
                    1 + n,
                    third,
                    x.output,
                    m,
                    state(rest.env, settled(rest), stack),
                    rest.output,
                );
                1 + n + m
            },
        }
    }
}

/// The machine goes round a loop as `exec_loop` says.
pub proof fn lemma_machine_loops(
    condition: Option<ExprView>,
    increment: Option<ExprView>,
    body: StmtView,
    env: EnvView,
    stack: Seq<FrameView>,
    host: HostView,
    fuel: nat,
) -> (steps: nat)
    requires
        exec_loop(condition, increment, body, env, host, fuel) is Some,
    ensures
        next_round(env, stack, condition, increment, body).machine.reaches(
            host,
            steps,
            state(
                exec_loop(condition, increment, body, env, host, fuel)->0.env,
                settled(exec_loop(condition, increment, body, env, host, fuel)->0),
                stack,
            ),
            exec_loop(condition, increment, body, env, host, fuel)->0.output,
        ),
    decreases fuel, body, 2nat,
{
    let start = next_round(env, stack, condition, increment, body).machine;
    let quiet = Seq::<Seq<char>>::empty();
    let x = exec_loop(condition, increment, body, env, host, fuel)->0;
    lemma_quiet(quiet);
    lemma_quiet(x.output);
    match condition {
        Some(c) => {
            let testing = FrameView::Loop { stage: LoopStage::Test, condition, increment, body };
            lemma_pushed(stack, testing);
            let n = lemma_machine_evaluates(c, env, stack.push(testing), host);
            let test = eval(c, env, host);
            let second = state(test.env, focus_of(test.result), stack.push(testing));
            lemma_then_step(start, host, n, second, quiet);
            let third = second.step(second.event_from(host)).machine;
            match test.result {
                Err(_) => n + 1,
                Ok(v) => {
                    if v.is_truthy() {
                        let k = lemma_machine_round(condition, increment, body, test.env, stack, host, fuel);
                        lemma_chain(start, host, n + 1, third, quiet, k, third.run(host, k), x.output);
                        n + 1 + k
                    } else {
                        n + 1
                    }
                },
            }
        },
        None => lemma_machine_round(condition, increment, body, env, stack, host, fuel),
    }
}

/// The machine executes a round of a loop, and the rounds after it, as
/// `exec_round` says.
pub proof fn lemma_machine_round(
    condition: Option<ExprView>,
    increment: Option<ExprView>,
    body: StmtView,
    env: EnvView,
    stack: Seq<FrameView>,
    host: HostView,
    fuel: nat,
) -> (steps: nat)
    requires
        exec_round(condition, increment, body, env, host, fuel) is Some,
    ensures
        state(
            env,
            FocusView::Statement(body),
            stack.push(FrameView::Loop { stage: LoopStage::Body, condition, increment, body }),
        ).reaches(
            host,
            steps,
            state(
                exec_round(condition, increment, body, env, host, fuel)->0.env,
                settled(exec_round(condition, increment, body, env, host, fuel)->0),
                stack,
            ),
            exec_round(condition, increment, body, env, host, fuel)->0.output,
        ),
    decreases fuel, body, 1nat,
{
    let running = FrameView::Loop { stage: LoopStage::Body, condition, increment, body };
    let start = state(env, FocusView::Statement(body), stack.push(running));
    let quiet = Seq::<Seq<char>>::empty();
    let x = exec_round(condition, increment, body, env, host, fuel)->0;
    let round = exec(body, env, host, fuel)->0;
    lemma_quiet(quiet);
    lemma_quiet(round.output);
    lemma_pushed(stack, running);
    let n = lemma_machine_executes(body, env, stack.push(running), host, fuel);
    let second = state(round.env, settled(round), stack.push(running));
    match round.result {
        Err(error) => {
            lemma_error_leaves(start, host, n, round.env, error, stack, running, round.output);
            n + 1
        },
        Ok(_) => {
            lemma_then_step(start, host, n, second, round.output);
            let third = second.step(second.event_from(host)).machine;
            match increment {
                Some(i) => {
                    let turning = FrameView::Loop {
                        stage: LoopStage::Next,
                        condition,
                        increment,
                        body,
                    };
                    lemma_pushed(stack, turning);
                    let m = lemma_machine_evaluates(i, round.env, stack.push(turning), host);
                    let stepped = eval(i, round.env, host);
                    let fourth = state(stepped.env, focus_of(stepped.result), stack.push(turning));
                    lemma_chain(start, host, n + 1, third, round.output, m, fourth, quiet);
                    lemma_then_step(start, host, n + 1 + m, fourth, round.output);
                    let fifth = fourth.step(fourth.event_from(host)).machine;
                    match stepped.result {
                        Err(_) => n + 1 + m + 1,
                        Ok(_) => {
                            let rest = exec_loop(
                                condition,
                                increment,
                                body,
                                stepped.env,
                                host,
                                (fuel - 1) as nat,
                            )->0;
                            let k = lemma_machine_loops(
                                condition,
                                increment,
                                body,
                                stepped.env,
                                stack,
                                host,
                                (fuel - 1) as nat,
                            );
                            lemma_chain(
                                start,
                                host,
                                n + 1 + m + 1,
                                fifth,
                                round.output,
                                k,
                                state(rest.env, settled(rest), stack),
                                rest.output,
                            );
                            n + 1 + m + 1 + k
                        },
                    }
                },
                None => {
                    let rest = exec_loop(
                        condition,
                        increment,
                        body,
                        round.env,
                        host,
                        (fuel - 1) as nat,
                    )->0;
                    let k = lemma_machine_loops(
                        condition,
                        increment,
                        body,
                        round.env,
                        stack,
                        host,
                        (fuel - 1) as nat,
                    );
                    lemma_chain(
                        start,
                        host,
                        n + 1,
                        third,
                        round.output,
                        k,
                        state(rest.env, settled(rest), stack),
                        rest.output,
                    );
                    n + 1 + k
                },
            }
        },
    }
}

/// A program runs as its statements, executed in order, say: the machine
/// that is ready to run them reaches, against the host, the state in which
/// its next action is `Finished` with their result, has then printed their
/// lines, and holds the scope chain that they leave.
pub proof fn lemma_program_runs(
    statements: Seq<StmtView>,
    env: EnvView,
    host: HostView,
    fuel: nat,
) -> (steps: nat)
    requires
        exec_sequence(statements, 0, env, host, fuel) is Some,
    ensures
        ({
            let x = exec_sequence(statements, 0, env, host, fuel)->0;
            let end = state(x.env, settled(x), Seq::empty());
            &&& MachineView::ready(env, statements).reaches(host, steps, end, x.output)
            &&& end.step(end.event_from(host)).action == ActionView::Finished(dropped_result(x))
            &&& end.step(end.event_from(host)).machine == end
        }),
{
    let x = exec_sequence(statements, 0, env, host, fuel)->0;
    let end = state(x.env, settled(x), Seq::empty());
    let start = state(
        env,
        FocusView::Value(ValueView::Nil),
        Seq::<FrameView>::empty().push(FrameView::Sequence { statements, next: 0 }),
    );
    assert(MachineView::ready(env, statements).stack =~= start.stack);
    assert(MachineView::ready(env, statements) == start);
    let steps = lemma_machine_sequence(
        statements,
        0,
        env,
        Seq::empty(),
        host,
        fuel,
        ValueView::Nil,
    );
    steps
}

/// A step that asks nothing of the caller leaves no request standing.
proof fn lemma_continue_awaits_nothing(machine: MachineView, event: EventView)
    requires
        !(machine.step(event).action is Ask),
    ensures
        !(machine.step(event).machine.focus is Await),
{
    match machine.focus {
        FocusView::Value(v) => {
            if machine.stack.len() > 0 {
                match machine.stack.last() {
                    FrameView::BinaryApply { operator, right } => {},
                    FrameView::Loop { stage, condition, increment, body } => {},
                    _ => {},
                }
            }
        },
        _ => {},
    }
}

/// `advance`, called with the host's answer to the request that stands, if
/// one does, takes the steps of `run`: at least one, at most one more than
/// its budget. It stops early only at an action that is not `Continue`, and
/// that action carries the only line printed.
pub proof fn lemma_advance_follows_run(machine: MachineView, host: HostView, budget: nat) -> (steps:
    nat)
    ensures
        1 <= steps <= budget + 1,
        machine.advance(machine.event_from(host), budget).machine == machine.run(host, steps),
        machine.printed(host, steps) == lines_of(
            machine.advance(machine.event_from(host), budget).action,
        ),
        steps <= budget ==> !(machine.advance(machine.event_from(host), budget).action
            is Continue),
    decreases budget,
{
    let first = machine.step(machine.event_from(host));
    lemma_one(machine, host);
    if first.action is Continue && budget > 0 {
        lemma_continue_awaits_nothing(machine, machine.event_from(host));
        let rest = lemma_advance_follows_run(first.machine, host, (budget - 1) as nat);
        lemma_step_then(
            machine,
            host,
            rest,
            first.machine.run(host, rest),
            first.machine.printed(host, rest),
        );
        lemma_quiet(first.machine.printed(host, rest));
        1 + rest
    } else {
        1
    }
}

/// Any number of steps against a host keeps a balanced machine balanced.
pub proof fn lemma_run_keeps_balance(machine: MachineView, host: HostView, steps: nat, base: nat)
    requires
        balanced(machine, base),
    ensures
        balanced(machine.run(host, steps), base),
    decreases steps,
{
    if steps > 0 {
        lemma_step_keeps_balance(machine, machine.event_from(host), base);
        lemma_run_keeps_balance(
            machine.step(machine.event_from(host)).machine,
            host,
            (steps - 1) as nat,
            base,
        );
    }
}

/// Evaluating an expression opens and closes no scope.
pub proof fn lemma_eval_keeps_depth(e: ExprView, env: EnvView, host: HostView)
    requires
        env.depth() >= 1,
    ensures
        eval(e, env, host).env.depth() == env.depth(),
{
    let steps = lemma_machine_evaluates(e, env, Seq::empty(), host);
    lemma_run_keeps_balance(
        state(env, FocusView::Expression(e), Seq::empty()),
        host,
        steps,
        env.depth(),
    );
}

/// Every scope that a statement opens is closed when the statement is done,
/// whether it has succeeded or failed.
pub proof fn lemma_exec_keeps_depth(s: StmtView, env: EnvView, host: HostView, fuel: nat)
    requires
        env.depth() >= 1,
        exec(s, env, host, fuel) is Some,
    ensures
        exec(s, env, host, fuel)->0.env.depth() == env.depth(),
{
    let steps = lemma_machine_executes(s, env, Seq::empty(), host, fuel);
    lemma_run_keeps_balance(
        state(env, FocusView::Statement(s), Seq::empty()),
        host,
        steps,
        env.depth(),
    );
}

/// A variable declared in a block is gone after the block, and a variable of
/// that name outside the block is as it was: after a block that declares
/// `name`, every name is bound as before the block.
pub proof fn lemma_block_declaration_is_scoped(
    name: crate::frontend::token::TokenView,
    initializer: Option<ExprView>,
    env: EnvView,
    host: HostView,
    fuel: nat,
)
    requires
        env.depth() >= 1,
        initializer matches Some(e) ==> (e is BoolLiteral || e is StringLiteral || e is Nil
            || e is NumberLiteral),
    ensures
        exec(StmtView::Block(seq![StmtView::Var { name, initializer }]), env, host, fuel) == Some(
            Executed { result: Ok(()), env, output: Seq::empty() },
        ),
{
    let declaration = StmtView::Var { name, initializer };
    let statements = seq![declaration];
    let inner = env.begin_scope();
    reveal_with_fuel(exec_sequence, 3);
    let value = match initializer {
        Some(e) => eval(e, inner, host).result->Ok_0,
        None => ValueView::Nil,
    };
    assert(statements[0] == declaration);
    assert(exec(declaration, inner, host, fuel) == Some(
        Executed { result: Ok(()), env: inner.define(name.lexeme, value), output: Seq::empty() },
    ));
    lemma_definition_scoped(inner, name.lexeme, value);
    lemma_scope_closed(env);
    let quiet = Seq::<Seq<char>>::empty();
    assert(quiet + quiet =~= quiet);
    let declared = inner.define(name.lexeme, value);
    assert(exec_sequence(statements, 1, declared, host, fuel) == Some(
        Executed { result: Ok(()), env: declared, output: quiet },
    ));
    assert(exec_sequence(statements, 0, inner, host, fuel) == Some(
        Executed { result: Ok(()), env: declared, output: quiet },
    ));
    assert(declared.end_scope() == env);
}

} // verus!
