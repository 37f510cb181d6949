use vstd::prelude::*;
use crate::clock::{utc_formatted, DatetimeClass};
use crate::env::Env;
use crate::expr::{lemma_exprs_view_index, Expr};
use crate::grammar::{expr_view, exprs_view, names_view, statement_view, statements_view, ExprView, StatementView};
use crate::number::{abs_spec, Num};
use crate::statement::{copy_names, copy_statements, lemma_statements_view_index, Statement};
use crate::tokens::{Token, TokenView};
use crate::value::{
    arith_result, class_default, class_instance, field_of, magic_spec, result_view, Builtin, DatetimeInstance,
    Function, Instance, MagicMethod, NumberInstance, RuntimeError, StringInstance, Value, ValueView,
};

verus! {

/// How deeply user-defined function calls may nest unless the interpreter is made
/// with another limit.
pub const MAX_CALL_DEPTH: usize = 1000;

/// What the interpreter needs from the world around it: the effects of `Std.print`,
/// `Std.input`, `Time.now` and `Time.sleep`. A host keeps, as a record, what it was
/// asked to write, how long it was asked to wait, and what it answered.
pub trait Host {
    /// The argument lists written by `print`, oldest first.
    spec fn printed(&self) -> Seq<Seq<ValueView>>;

    /// The waits asked of `sleep`, oldest first.
    spec fn slept(&self) -> Seq<Num>;

    /// The lines given back by `read_line`, oldest first.
    spec fn lines_read(&self) -> Seq<Seq<char>>;

    /// The clock readings given back by `now`, oldest first.
    spec fn clock_read(&self) -> Seq<Option<DatetimeInstance>>;

    /// Write the display form of each argument of one `Std.print` call, with nothing
    /// between them, then end the line.
    fn print(&mut self, args: &Vec<Value>)
        ensures
            final(self).printed() == old(self).printed().push(values_view(args@)),
            final(self).slept() == old(self).slept(),
            final(self).lines_read() == old(self).lines_read(),
            final(self).clock_read() == old(self).clock_read(),
    ;

    /// Read one line for `Std.input`, without its line terminator or surrounding spaces.
    fn read_line(&mut self) -> (line: String)
        ensures
            final(self).printed() == old(self).printed(),
            final(self).slept() == old(self).slept(),
            final(self).lines_read() == old(self).lines_read().push(line@),
            final(self).clock_read() == old(self).clock_read(),
    ;

    /// Read the clock for `Time.now`: `None` where it reads a time that no date holds.
    fn now(&mut self) -> (time: Option<DatetimeInstance>)
        ensures
            final(self).printed() == old(self).printed(),
            final(self).slept() == old(self).slept(),
            final(self).lines_read() == old(self).lines_read(),
            final(self).clock_read() == old(self).clock_read().push(time),
    ;

    /// Wait for the given (non-negative) number of seconds.
    fn sleep(&mut self, seconds: Num)
        ensures
            final(self).printed() == old(self).printed(),
            final(self).slept() == old(self).slept().push(seconds),
            final(self).lines_read() == old(self).lines_read(),
            final(self).clock_read() == old(self).clock_read(),
    ;
}

/// The answers a host gives over a run, in order: the lines read and the clock readings.
pub struct Answers {
    pub lines: Seq<Seq<char>>,
    pub clock: Seq<Option<DatetimeInstance>>,
}

/// The effects of a run so far: how many lines and clock readings it took, what it
/// printed and how long it waited.
pub struct Trace {
    pub read: nat,
    pub ticks: nat,
    pub printed: Seq<Seq<ValueView>>,
    pub slept: Seq<Num>,
}

/// The effects recorded by a host.
pub open spec fn trace<H: Host>(h: H) -> Trace {
    Trace { read: h.lines_read().len(), ticks: h.clock_read().len(), printed: h.printed(), slept: h.slept() }
}

/// The host's answers so far begin the answers `o`.
pub open spec fn answered<H: Host>(h: H, o: Answers) -> bool {
    &&& h.lines_read().len() <= o.lines.len()
    &&& o.lines.take(h.lines_read().len() as int) == h.lines_read()
    &&& h.clock_read().len() <= o.clock.len()
    &&& o.clock.take(h.clock_read().len() as int) == h.clock_read()
}

/// The later host's answers begin with the earlier one's.
pub open spec fn extends<H: Host>(later: H, earlier: H) -> bool {
    &&& earlier.lines_read().len() <= later.lines_read().len()
    &&& later.lines_read().take(earlier.lines_read().len() as int) == earlier.lines_read()
    &&& earlier.clock_read().len() <= later.clock_read().len()
    &&& later.clock_read().take(earlier.clock_read().len() as int) == earlier.clock_read()
}

proof fn lemma_extends_refl<H: Host>(h: H)
    ensures
        extends(h, h),
{
    assert(h.lines_read().take(h.lines_read().len() as int) =~= h.lines_read());
    assert(h.clock_read().take(h.clock_read().len() as int) =~= h.clock_read());
}

/// Answers that begin a later host's answers begin the earlier ones too, and hosts
/// that extend each other in a chain extend from its start.
proof fn lemma_chain<H: Host>(h0: H, h1: H, h2: H)
    requires
        extends(h1, h0),
        extends(h2, h1),
    ensures
        extends(h2, h0),
        forall|o: Answers| #[trigger] answered(h2, o) ==> answered(h1, o) && answered(h0, o),
{
    assert(h2.lines_read().take(h0.lines_read().len() as int) =~= h1.lines_read().take(h0.lines_read().len() as int));
    assert(h2.clock_read().take(h0.clock_read().len() as int) =~= h1.clock_read().take(h0.clock_read().len() as int));
    assert forall|o: Answers| #[trigger] answered(h2, o) implies answered(h1, o) && answered(h0, o) by {
        assert(o.lines.take(h1.lines_read().len() as int) =~= h2.lines_read().take(h1.lines_read().len() as int));
        assert(o.clock.take(h1.clock_read().len() as int) =~= h2.clock_read().take(h1.clock_read().len() as int));
        assert(o.lines.take(h0.lines_read().len() as int) =~= h1.lines_read().take(h0.lines_read().len() as int));
        assert(o.clock.take(h0.clock_read().len() as int) =~= h1.clock_read().take(h0.clock_read().len() as int));
    }
}

/// The plain effects that a terminal, or any other world, offers: what a [`Console`]
/// forwards `Std.print`, `Std.input` and `Time.sleep` to.
pub trait Io {
    /// Write the display form of each argument, with nothing between them, then end
    /// the line.
    fn print(&mut self, args: &Vec<Value>);

    /// Read one line, without its line terminator or surrounding spaces.
    fn read_line(&mut self) -> String;

    /// Wait for the given (non-negative) number of seconds.
    fn sleep(&mut self, seconds: Num);
}

/// A host over any [`Io`], reading the system clock: it forwards each effect and keeps
/// the record of what it forwarded and answered.
pub struct Console<T: Io> {
    pub io: T,
    printed: Ghost<Seq<Seq<ValueView>>>,
    slept: Ghost<Seq<Num>>,
    lines: Ghost<Seq<Seq<char>>>,
    clock: Ghost<Seq<Option<DatetimeInstance>>>,
}

impl<T: Io> Console<T> {
    /// A host over `io` that has forwarded and answered nothing yet.
    pub fn new(io: T) -> (r: Console<T>)
        ensures
            r.printed() == Seq::<Seq<ValueView>>::empty(),
            r.slept() == Seq::<Num>::empty(),
            r.lines_read() == Seq::<Seq<char>>::empty(),
            r.clock_read() == Seq::<Option<DatetimeInstance>>::empty(),
    {
        Console {
            io,
            printed: Ghost(Seq::empty()),
            slept: Ghost(Seq::empty()),
            lines: Ghost(Seq::empty()),
            clock: Ghost(Seq::empty()),
        }
    }
}

impl<T: Io> Host for Console<T> {
    closed spec fn printed(&self) -> Seq<Seq<ValueView>> {
        self.printed@
    }

    closed spec fn slept(&self) -> Seq<Num> {
        self.slept@
    }

    closed spec fn lines_read(&self) -> Seq<Seq<char>> {
        self.lines@
    }

    closed spec fn clock_read(&self) -> Seq<Option<DatetimeInstance>> {
        self.clock@
    }

    fn print(&mut self, args: &Vec<Value>) {
        self.io.print(args);
        self.printed = Ghost(self.printed@.push(values_view(args@)));
    }

    fn read_line(&mut self) -> (line: String) {
        let line = self.io.read_line();
        self.lines = Ghost(self.lines@.push(line@));
        line
    }

    fn now(&mut self) -> (time: Option<DatetimeInstance>) {
        let time = DatetimeClass.create_instance();
        self.clock = Ghost(self.clock@.push(time));
        time
    }

    fn sleep(&mut self, seconds: Num) {
        self.io.sleep(seconds);
        self.slept = Ghost(self.slept@.push(seconds));
    }
}

/// A host that keeps what is printed and the waits asked in memory, answers
/// `Std.input` from a list of lines given in advance and reads the system clock.
pub struct ScriptedHost {
    /// The argument lists printed, oldest first.
    pub output: Vec<Vec<Value>>,
    /// The lines still to be read, the next one last.
    pub lines: Vec<String>,
    /// The waits asked, oldest first.
    pub waits: Vec<Num>,
    /// The lines given back so far.
    pub read: Ghost<Seq<Seq<char>>>,
    /// The clock readings given back so far.
    pub clock: Ghost<Seq<Option<DatetimeInstance>>>,
}

impl ScriptedHost {
    /// A host with nothing printed, that will answer `Std.input` with `lines`, the
    /// first line last.
    pub fn new(lines: Vec<String>) -> (r: ScriptedHost)
        ensures
            r.printed() == Seq::<Seq<ValueView>>::empty(),
            r.slept() == Seq::<Num>::empty(),
            r.lines_read() == Seq::<Seq<char>>::empty(),
            r.clock_read() == Seq::<Option<DatetimeInstance>>::empty(),
            r.lines@ == lines@,
    {
        let r = ScriptedHost {
            output: Vec::new(),
            lines,
            waits: Vec::new(),
            read: Ghost(Seq::empty()),
            clock: Ghost(Seq::empty()),
        };
        assert(r.printed() =~= Seq::<Seq<ValueView>>::empty());
        r
    }
}

impl Host for ScriptedHost {
    open spec fn printed(&self) -> Seq<Seq<ValueView>> {
        self.output@.map_values(|v: Vec<Value>| values_view(v@))
    }

    open spec fn slept(&self) -> Seq<Num> {
        self.waits@
    }

    open spec fn lines_read(&self) -> Seq<Seq<char>> {
        self.read@
    }

    open spec fn clock_read(&self) -> Seq<Option<DatetimeInstance>> {
        self.clock@
    }

    fn print(&mut self, args: &Vec<Value>) {
        let mut copy: Vec<Value> = Vec::new();
        let mut i: usize = 0;
        while i < args.len()
            invariant
                i <= args.len(),
                values_view(copy@) == values_view(args@.take(i as int)),
            decreases args.len() - i,
        {
            let ghost before = copy@;
            copy.push(args[i].copied());
            proof {
                assert(values_view(copy@) =~= values_view(before).push(args@[i as int]@));
                assert(values_view(args@.take(i + 1)) =~= values_view(args@.take(i as int)).push(args@[i as int]@));
            }
            i = i + 1;
        }
        assert(args@.take(args.len() as int) =~= args@);
        let ghost old_output = self.output@;
        self.output.push(copy);
        assert(self.printed() =~= old_output.map_values(|v: Vec<Value>| values_view(v@)).push(values_view(args@)));
    }

    fn read_line(&mut self) -> (line: String) {
        let line = match self.lines.pop() {
            Some(line) => line,
            None => String::new(),
        };
        self.read = Ghost(self.read@.push(line@));
        line
    }

    fn now(&mut self) -> (time: Option<DatetimeInstance>) {
        let time = DatetimeClass.create_instance();
        self.clock = Ghost(self.clock@.push(time));
        time
    }

    fn sleep(&mut self, seconds: Num) {
        self.waits.push(seconds);
    }
}

/// The operator that a binary-operator token stands for.
pub open spec fn magic_of(op: TokenView) -> Option<MagicMethod> {
    match op {
        TokenView::Plus => Some(MagicMethod::Add),
        TokenView::Minus => Some(MagicMethod::Sub),
        TokenView::Star => Some(MagicMethod::Mul),
        TokenView::Divider => Some(MagicMethod::Div),
        TokenView::Equal => Some(MagicMethod::Equal),
        TokenView::NotEqual => Some(MagicMethod::NotEqual),
        TokenView::GreaterThan => Some(MagicMethod::GreaterThan),
        TokenView::LessThan => Some(MagicMethod::LessThan),
        _ => None,
    }
}

pub open spec fn is_instance_view(v: ValueView) -> bool {
    v is Number || v is Str || v is Std || v is Time || v is Datetime
}

/// A binary operator on two evaluated operands, both of which must be instances.
pub open spec fn binary_spec(op: TokenView, l: ValueView, r: ValueView) -> Result<ValueView, RuntimeError> {
    match magic_of(op) {
        None => Err(RuntimeError::UnsupportedOperator),
        Some(m) => if is_instance_view(l) && is_instance_view(r) {
            magic_spec(m, l, r)
        } else {
            Err(RuntimeError::InvalidOperands)
        },
    }
}

/// One step of an accessor chain: the field named by `segment` of `v`.
pub open spec fn access_step(v: ValueView, segment: ExprView) -> Result<ValueView, RuntimeError> {
    if !is_instance_view(v) {
        Err(RuntimeError::NotAnInstance)
    } else {
        match segment {
            ExprView::Identifier(name) => match field_of(v, name) {
                Some(f) => Ok(f),
                None => Err(RuntimeError::FieldNotFound),
            },
            _ => Err(RuntimeError::InvalidAccessor),
        }
    }
}

/// The fields named by `segments`, read one after the other starting from `acc`.
pub open spec fn access_chain(acc: Result<ValueView, RuntimeError>, segments: Seq<ExprView>) -> Result<ValueView, RuntimeError>
    decreases segments.len(),
{
    match acc {
        Err(x) => Err(x),
        Ok(v) => if segments.len() == 0 {
            Ok(v)
        } else {
            access_chain(access_step(v, segments[0]), segments.drop_first())
        },
    }
}

/// The variables of a scope, by name.
pub type Bindings = Map<Seq<char>, ValueView>;

/// A name: its variable, else a fresh default instance of the class of that name.
pub open spec fn resolve(m: Bindings, name: Seq<char>) -> Result<ValueView, RuntimeError> {
    if m.contains_key(name) {
        Ok(m[name])
    } else {
        match class_default(name) {
            Some(v) => Ok(v),
            None => Err(RuntimeError::NameNotFound),
        }
    }
}

/// The parameters from index `k` on bound, left to right, to the arguments at the
/// same places; extra parameters or arguments are left out.
pub open spec fn bind_params(m: Bindings, params: Seq<Seq<char>>, args: Seq<ValueView>, k: int) -> Bindings
    decreases params.len() - k,
{
    if k < 0 || k >= params.len() || k >= args.len() {
        m
    } else {
        bind_params(m.insert(params[k], args[k]), params, args, k + 1)
    }
}

pub open spec fn values_view(v: Seq<Value>) -> Seq<ValueView> {
    v.map_values(|x: Value| x@)
}

/// The `k`-th line of the answers (an empty line past their end).
pub open spec fn answer_line(o: Answers, k: nat) -> Seq<char> {
    if k < o.lines.len() {
        o.lines[k as int]
    } else {
        Seq::empty()
    }
}

/// The `k`-th clock reading of the answers (none past their end).
pub open spec fn answer_clock(o: Answers, k: nat) -> Option<DatetimeInstance> {
    if k < o.clock.len() {
        o.clock[k as int]
    } else {
        None
    }
}

/// A built-in function run on its arguments under the answers `o`, with the effects
/// so far `t`: its result and the effects after it.
pub open spec fn builtin_spec(b: Builtin, args: Seq<ValueView>, o: Answers, t: Trace) -> (Result<ValueView, RuntimeError>, Trace) {
    match b {
        Builtin::Abs(n) => (if n.wf() { arith_result(abs_spec(n)) } else { Err(RuntimeError::InvalidNumber) }, t),
        Builtin::Print => (
            Ok(ValueView::Nil),
            Trace { read: t.read, ticks: t.ticks, printed: t.printed.push(args), slept: t.slept },
        ),
        Builtin::Input => (
            Ok(ValueView::Str(answer_line(o, t.read))),
            Trace { read: t.read + 1, ticks: t.ticks, printed: t.printed, slept: t.slept },
        ),
        Builtin::Now => (
            match answer_clock(o, t.ticks) {
                Some(d) => Ok(ValueView::Datetime(d)),
                None => Err(RuntimeError::ClockOutOfRange),
            },
            Trace { read: t.read, ticks: t.ticks + 1, printed: t.printed, slept: t.slept },
        ),
        Builtin::Sleep => if args.len() >= 1 && (args[0] matches ValueView::Number(n) && n.wf() && n.num >= 0) {
            (
                Ok(ValueView::Nil),
                Trace { read: t.read, ticks: t.ticks, printed: t.printed, slept: t.slept.push(args[0]->Number_0) },
            )
        } else {
            (Err(RuntimeError::InvalidArguments), t)
        },
        Builtin::Format(d) => (
            if args.len() >= 1 && args[0] is Str {
                match utc_formatted(d.secs as int, d.nanos as int, args[0]->Str_0) {
                    Some(s) => Ok(ValueView::Str(s)),
                    None => Err(RuntimeError::InvalidFormat),
                }
            } else {
                Err(RuntimeError::InvalidArguments)
            },
            t,
        ),
    }
}

/// How a block's outcome ends a call: its `return` value, or nothing.
pub open spec fn call_outcome(r: (Result<Option<ValueView>, RuntimeError>, Bindings, Trace)) -> (Result<ValueView, RuntimeError>, Trace) {
    match r.0 {
        Ok(Some(v)) => (Ok(v), r.2),
        Ok(None) => (Ok(ValueView::Nil), r.2),
        Err(x) => (Err(x), r.2),
    }
}

/// The value of an expression under the bindings `m`, the host's answers `o` and the
/// effects so far `t`, with calls of user functions nested at most `depth` deep;
/// together with the effects after it.
pub open spec fn eval_v(m: Bindings, e: ExprView, depth: nat, o: Answers, t: Trace) -> (Result<ValueView, RuntimeError>, Trace)
    decreases depth, 0nat, e,
{
    match e {
        ExprView::Number(n) => (if n.wf() { Ok(ValueView::Number(n)) } else { Err(RuntimeError::InvalidNumber) }, t),
        ExprView::Boolean(b) => (Ok(ValueView::Boolean(b)), t),
        ExprView::Str(s) => (Ok(ValueView::Str(s)), t),
        ExprView::Identifier(name) => (resolve(m, name), t),
        ExprView::BinaryOp(op, lhs, rhs) => match eval_v(m, *lhs, depth, o, t) {
            (Err(x), t1) => (Err(x), t1),
            (Ok(l), t1) => match eval_v(m, *rhs, depth, o, t1) {
                (Err(x), t2) => (Err(x), t2),
                (Ok(r), t2) => (binary_spec(op, l, r), t2),
            },
        },
        ExprView::Acessor(parts) => if parts.len() == 0 {
            (Err(RuntimeError::InvalidAccessor), t)
        } else {
            match eval_v(m, parts[0], depth, o, t) {
                (root, t1) => (access_chain(root, parts.drop_first()), t1),
            }
        },
        ExprView::Call(callee, args) => match eval_v(m, *callee, depth, o, t) {
            (Err(x), t1) => (Err(x), t1),
            (Ok(f), t1) => match args_v(m, args, depth, o, t1) {
                (Err(x), t2) => (Err(x), t2),
                (Ok(vals), t2) => match f {
                    ValueView::Builtin(b) => builtin_spec(b, vals, o, t2),
                    ValueView::UserFunction(..) => if depth == 0 {
                        (Err(RuntimeError::CallDepthExceeded), t2)
                    } else {
                        call_v(m, f, vals, (depth - 1) as nat, o, t2)
                    },
                    _ => (Err(RuntimeError::NotCallable), t2),
                },
            },
        },
    }
}

/// The values of call arguments, evaluated from left to right.
pub open spec fn args_v(m: Bindings, args: Seq<ExprView>, depth: nat, o: Answers, t: Trace) -> (Result<Seq<ValueView>, RuntimeError>, Trace)
    decreases depth, 0nat, args,
{
    if args.len() == 0 {
        (Ok(Seq::empty()), t)
    } else {
        match args_v(m, args.drop_last(), depth, o, t) {
            (Err(x), t1) => (Err(x), t1),
            (Ok(vals), t1) => match eval_v(m, args.last(), depth, o, t1) {
                (Err(x), t2) => (Err(x), t2),
                (Ok(v), t2) => (Ok(vals.push(v)), t2),
            },
        }
    }
}

/// What calling the function value `f` on `args` from a scope `m` gives, with
/// `depth` further levels of calls allowed inside it.
pub open spec fn call_v(m: Bindings, f: ValueView, args: Seq<ValueView>, depth: nat, o: Answers, t: Trace) -> (Result<ValueView, RuntimeError>, Trace)
    decreases depth, 2nat, f,
{
    match f {
        ValueView::Builtin(b) => builtin_spec(b, args, o, t),
        ValueView::UserFunction(name, params, body) => call_outcome(
            block_v(bind_params(m, params, args, 0).insert(name, f), body, depth, o, t),
        ),
        _ => (Err(RuntimeError::NotCallable), t),
    }
}

/// What running a statement under `m` gives, with the bindings and effects after it:
/// `Some` carries the value of a `return` reached. A failed statement keeps the
/// bindings that it found, and assignment binds a name whether or not it was bound.
pub open spec fn stmt_v(m: Bindings, s: StatementView, depth: nat, o: Answers, t: Trace) -> (Result<Option<ValueView>, RuntimeError>, Bindings, Trace)
    decreases depth, 1nat, s,
{
    match s {
        StatementView::Block(b) => block_v(m, b, depth, o, t),
        StatementView::Assign(name, e) => match eval_v(m, e, depth, o, t) {
            (Ok(v), t1) => (Ok(None), m.insert(name, v), t1),
            (Err(x), t1) => (Err(x), m, t1),
        },
        StatementView::Fn(name, params, body) => (
            Ok(None),
            m.insert(name, ValueView::UserFunction(name, params, body)),
            t,
        ),
        StatementView::Expr(e) => match eval_v(m, e, depth, o, t) {
            (Ok(_), t1) => (Ok(None), m, t1),
            (Err(x), t1) => (Err(x), m, t1),
        },
        StatementView::Return(e) => match eval_v(m, e, depth, o, t) {
            (Ok(v), t1) => (Ok(Some(v)), m, t1),
            (Err(x), t1) => (Err(x), m, t1),
        },
        StatementView::If(c, body, else_body) => match eval_v(m, c, depth, o, t) {
            (Err(x), t1) => (Err(x), m, t1),
            (Ok(ValueView::Boolean(true)), t1) => block_v(m, body, depth, o, t1),
            (Ok(ValueView::Boolean(false)), t1) => block_v(m, else_body, depth, o, t1),
            (Ok(_), t1) => (Err(RuntimeError::ConditionNotBoolean), m, t1),
        },
    }
}

/// The statements run in order under `m`: the first `return` or failure ends the block.
pub open spec fn block_v(m: Bindings, b: Seq<StatementView>, depth: nat, o: Answers, t: Trace) -> (Result<Option<ValueView>, RuntimeError>, Bindings, Trace)
    decreases depth, 1nat, b,
{
    if b.len() == 0 {
        (Ok(None), m, t)
    } else {
        match stmt_v(m, b[0], depth, o, t) {
            (Ok(None), m1, t1) => block_v(m1, b.subrange(1, b.len() as int), depth, o, t1),
            other => other,
        }
    }
}

/// The host answered nothing and did nothing between `before` and `after`.
proof fn lemma_no_answer<H: Host>(before: H, after: H)
    requires
        after.lines_read() == before.lines_read(),
        after.clock_read() == before.clock_read(),
    ensures
        extends(after, before),
{
    lemma_extends_refl(after);
}

/// The host answered one line between `before` and `after`: it is the next line of
/// any answers that the host's answers begin.
proof fn lemma_one_line<H: Host>(before: H, after: H, line: Seq<char>)
    requires
        after.lines_read() == before.lines_read().push(line),
        after.clock_read() == before.clock_read(),
    ensures
        extends(after, before),
        forall|o: Answers| #[trigger] answered(after, o) ==> answer_line(o, before.lines_read().len()) == line,
{
    let k = before.lines_read().len();
    assert(after.lines_read().take(k as int) =~= before.lines_read());
    assert(after.clock_read().take(after.clock_read().len() as int) =~= after.clock_read());
    assert forall|o: Answers| #[trigger] answered(after, o) implies answer_line(o, k) == line by {
        assert(o.lines.take(k as int + 1)[k as int] == o.lines[k as int]);
    }
}

/// The host answered one clock reading between `before` and `after`: it is the next
/// reading of any answers that the host's answers begin.
proof fn lemma_one_tick<H: Host>(before: H, after: H, time: Option<DatetimeInstance>)
    requires
        after.lines_read() == before.lines_read(),
        after.clock_read() == before.clock_read().push(time),
    ensures
        extends(after, before),
        forall|o: Answers| #[trigger] answered(after, o) ==> answer_clock(o, before.clock_read().len()) == time,
{
    let k = before.clock_read().len();
    assert(after.clock_read().take(k as int) =~= before.clock_read());
    assert(after.lines_read().take(after.lines_read().len() as int) =~= after.lines_read());
    assert forall|o: Answers| #[trigger] answered(after, o) implies answer_clock(o, k) == time by {
        assert(o.clock.take(k as int + 1)[k as int] == o.clock[k as int]);
    }
}

/// Run a built-in function on its evaluated arguments.
pub fn call_builtin<H: Host>(b: Builtin, args: &Vec<Value>, host: &mut H) -> (r: Result<Value, RuntimeError>)
    ensures
        extends(*final(host), *old(host)),
        forall|o: Answers| #[trigger] answered(*final(host), o) ==> builtin_spec(b, values_view(args@), o, trace(*old(host)))
            == (result_view(r), trace(*final(host))),
{
    let ghost h0 = *host;
    proof {
        lemma_extends_refl(h0);
    }
    match b {
        Builtin::Print => {
            host.print(args);
            proof {
                lemma_no_answer(h0, *host);
            }
            Ok(Value::Nil)
        },
        Builtin::Input => {
            let line = host.read_line();
            proof {
                lemma_one_line(h0, *host, line@);
            }
            Ok(Value::ClassInstance(Instance::String(StringInstance { value: line })))
        },
        Builtin::Abs(n) => {
            if n.den <= 0 {
                return Err(RuntimeError::InvalidNumber);
            }
            match n.abs() {
                Ok(a) => Ok(Value::ClassInstance(Instance::Number(NumberInstance { value: a }))),
                Err(_) => Err(RuntimeError::NumericOverflow),
            }
        },
        Builtin::Now => {
            let time = host.now();
            proof {
                lemma_one_tick(h0, *host, time);
            }
            match time {
                Some(d) => Ok(Value::ClassInstance(Instance::Datetime(d))),
                None => Err(RuntimeError::ClockOutOfRange),
            }
        },
        Builtin::Sleep => {
            if args.len() >= 1 {
                if let Value::ClassInstance(Instance::Number(n)) = &args[0] {
                    if n.value.den > 0 && n.value.num >= 0 {
                        host.sleep(n.value);
                        proof {
                            lemma_no_answer(h0, *host);
                        }
                        return Ok(Value::Nil);
                    }
                }
            }
            Err(RuntimeError::InvalidArguments)
        },
        Builtin::Format(d) => {
            if args.len() >= 1 {
                if let Value::ClassInstance(Instance::String(p)) = &args[0] {
                    return match d.format(p.value.as_str()) {
                        Some(s) => Ok(Value::ClassInstance(Instance::String(StringInstance { value: s }))),
                        None => Err(RuntimeError::InvalidFormat),
                    };
                }
            }
            Err(RuntimeError::InvalidArguments)
        },
    }
}

/// The operator that a binary-operator token stands for.
pub fn magic_method(op: &Token) -> (r: Option<MagicMethod>)
    ensures
        r == magic_of(op@),
{
    match op {
        Token::Plus => Some(MagicMethod::Add),
        Token::Minus => Some(MagicMethod::Sub),
        Token::Star => Some(MagicMethod::Mul),
        Token::Divider => Some(MagicMethod::Div),
        Token::Equal => Some(MagicMethod::Equal),
        Token::NotEqual => Some(MagicMethod::NotEqual),
        Token::GreaterThan => Some(MagicMethod::GreaterThan),
        Token::LessThan => Some(MagicMethod::LessThan),
        _ => None,
    }
}

/// A binary operator applied to two evaluated operands, through the left one's magic method.
pub fn eval_binary_op(op: &Token, lhs: &Value, rhs: &Value) -> (r: Result<Value, RuntimeError>)
    ensures
        result_view(r) == binary_spec(op@, lhs@, rhs@),
{
    let m = match magic_method(op) {
        Some(m) => m,
        None => return Err(RuntimeError::UnsupportedOperator),
    };
    match (lhs, rhs) {
        (Value::ClassInstance(l), Value::ClassInstance(_)) => l.call_magic(m, rhs),
        _ => Err(RuntimeError::InvalidOperands),
    }
}


pub open spec fn opt_result_view(r: Result<Option<Value>, RuntimeError>) -> Result<Option<ValueView>, RuntimeError> {
    match r {
        Ok(Some(v)) => Ok(Some(v@)),
        Ok(None) => Ok(None),
        Err(x) => Err(x),
    }
}

pub open spec fn args_result_view(r: Result<Vec<Value>, RuntimeError>) -> Result<Seq<ValueView>, RuntimeError> {
    match r {
        Ok(v) => Ok(values_view(v@)),
        Err(x) => Err(x),
    }
}


/// Once the arguments before `j` have failed, all of them fail the same way.
proof fn lemma_args_prefix(m: Bindings, args: Seq<ExprView>, j: int, depth: nat, o: Answers, t: Trace)
    requires
        0 <= j <= args.len(),
        args_v(m, args.take(j), depth, o, t).0 is Err,
    ensures
        args_v(m, args, depth, o, t) == args_v(m, args.take(j), depth, o, t),
    decreases args.len() - j,
{
    if j < args.len() {
        assert(args.take(j + 1).drop_last() =~= args.take(j));
        lemma_args_prefix(m, args, j + 1, depth, o, t);
    } else {
        assert(args.take(j) =~= args);
    }
}

/// Evaluate an expression under `env`; calls of user functions nest at most `depth` deep.
#[verifier::rlimit(100)]
pub fn eval_expr<H: Host>(env: &Env, host: &mut H, e: &Expr, depth: usize) -> (r: Result<Value, RuntimeError>)
    ensures
        extends(*final(host), *old(host)),
        forall|o: Answers| #[trigger] answered(*final(host), o) ==> eval_v(env.view(), expr_view(*e), depth as nat, o, trace(*old(host)))
            == (result_view(r), trace(*final(host))),
    decreases depth, 0nat, e,
{
    let ghost m = env.view();
    let ghost h0 = *host;
    proof {
        lemma_extends_refl(h0);
    }
    match e {
        Expr::Number(n) => {
            if n.den > 0 {
                Ok(Value::ClassInstance(Instance::Number(NumberInstance { value: *n })))
            } else {
                Err(RuntimeError::InvalidNumber)
            }
        },
        Expr::Boolean(b) => Ok(Value::Boolean(*b)),
        Expr::String(s) => Ok(Value::ClassInstance(Instance::String(StringInstance { value: s.clone() }))),
        Expr::Identifier(name) => match env.get(name.as_str()) {
            Some(v) => Ok(v),
            None => match class_instance(name.as_str()) {
                Some(v) => Ok(v),
                None => Err(RuntimeError::NameNotFound),
            },
        },
        Expr::BinaryOp { op, lhs, rhs } => {
            let l = match eval_expr(env, host, lhs, depth) {
                Ok(v) => v,
                Err(x) => return Err(x),
            };
            let ghost h1 = *host;
            let r = match eval_expr(env, host, rhs, depth) {
                Ok(v) => v,
                Err(x) => {
                    proof {
                        lemma_chain(h0, h1, *host);
                    }
                    return Err(x);
                },
            };
            proof {
                lemma_chain(h0, h1, *host);
            }
            eval_binary_op(op, &l, &r)
        },
        Expr::Acessor(parts) => {
            let ghost sv = exprs_view(parts@);
            proof {
                lemma_exprs_view_index(parts@);
            }
            if parts.len() == 0 {
                return Err(RuntimeError::InvalidAccessor);
            }
            let mut acc = match eval_expr(env, host, &parts[0], depth) {
                Ok(v) => v,
                Err(x) => return Err(x),
            };
            let ghost h1 = *host;
            let ghost root = acc@;
            assert(sv.drop_first() =~= sv.subrange(1, sv.len() as int));
            let mut i: usize = 1;
            while i < parts.len()
                invariant
                    expr_view(*e) == ExprView::Acessor(sv),
                    m == env.view(),
                    *host == h1,
                    h0 == *old(host),
                    extends(h1, h0),
                    forall|o: Answers| #[trigger] answered(h1, o) ==> eval_v(m, sv[0], depth as nat, o, trace(h0)) == (
                        Ok::<ValueView, RuntimeError>(root),
                        trace(h1),
                    ),
                    sv == exprs_view(parts@),
                    sv.len() == parts.len(),
                    forall|k: int| 0 <= k < parts.len() ==> #[trigger] sv[k] == expr_view(parts@[k]),
                    1 <= i <= parts.len(),
                    access_chain(Ok(root), sv.drop_first()) == access_chain(
                        Ok(acc@),
                        sv.subrange(i as int, sv.len() as int),
                    ),
                decreases parts.len() - i,
            {
                proof {
                    assert(sv.subrange(i as int, sv.len() as int).drop_first() =~= sv.subrange(i + 1, sv.len() as int));
                    assert(sv.subrange(i as int, sv.len() as int)[0] == sv[i as int]);
                    reveal_with_fuel(access_chain, 2);
                }
                let next = match &acc {
                    Value::ClassInstance(inst) => match &parts[i] {
                        Expr::Identifier(name) => match inst.get_field(name.as_str()) {
                            Some(f) => f,
                            None => return Err(RuntimeError::FieldNotFound),
                        },
                        _ => return Err(RuntimeError::InvalidAccessor),
                    },
                    _ => return Err(RuntimeError::NotAnInstance),
                };
                acc = next;
                i = i + 1;
            }
            proof {
                assert(sv.subrange(i as int, sv.len() as int) =~= Seq::<ExprView>::empty());
            }
            Ok(acc)
        },
        Expr::Call(callee, args) => {
            let f = match eval_expr(env, host, callee, depth) {
                Ok(v) => v,
                Err(x) => return Err(x),
            };
            let ghost h1 = *host;
            let vals = match eval_args(env, host, args, depth) {
                Ok(v) => v,
                Err(x) => {
                    proof {
                        lemma_chain(h0, h1, *host);
                    }
                    return Err(x);
                },
            };
            let ghost h2 = *host;
            proof {
                lemma_chain(h0, h1, h2);
            }
            match f {
                Value::Function(Function::Builtin(b)) => {
                    let r = call_builtin(b, &vals, host);
                    proof {
                        lemma_chain(h0, h2, *host);
                        lemma_chain(h1, h2, *host);
                    }
                    r
                },
                Value::Function(g) => {
                    if depth == 0 {
                        return Err(RuntimeError::CallDepthExceeded);
                    }
                    let r = g.call(vals, env, host, depth - 1);
                    proof {
                        lemma_chain(h0, h2, *host);
                        lemma_chain(h1, h2, *host);
                    }
                    r
                },
                _ => Err(RuntimeError::NotCallable),
            }
        },
    }
}

impl Function {
    /// Call the function on `args` from the scope `caller`: a built-in one runs on the
    /// arguments; a user-defined one runs its body in a copy of the caller's scope with
    /// each parameter bound to its argument and its own name bound to itself, and gives
    /// the value of the `return` reached, or nothing.
    pub fn call<H: Host>(self, args: Vec<Value>, caller: &Env, host: &mut H, depth: usize) -> (r: Result<Value, RuntimeError>)
        ensures
            extends(*final(host), *old(host)),
            forall|o: Answers| #[trigger] answered(*final(host), o) ==> call_v(caller.view(), Value::Function(self)@,
                values_view(args@), depth as nat, o, trace(*old(host))) == (result_view(r), trace(*final(host))),
        decreases depth, 2nat, self,
    {
        match self {
            Function::Builtin(b) => call_builtin(b, &args, host),
            Function::UserDefined { name, params, body } => {
                let ghost m = caller.view();
                let ghost ps = names_view(params@);
                let ghost vs = values_view(args@);
                let mut local = caller.copied();
                let mut k: usize = 0;
                while k < params.len() && k < args.len()
                    invariant
                        ps == names_view(params@),
                        vs == values_view(args@),
                        k <= params.len(),
                        bind_params(m, ps, vs, 0) == bind_params(local.view(), ps, vs, k as int),
                    decreases params.len() - k,
                {
                    local.set(params[k].clone(), args[k].copied());
                    k = k + 1;
                }
                let itself = Value::Function(
                    Function::UserDefined {
                        name: name.clone(),
                        params: copy_names(&params),
                        body: copy_statements(&body),
                    },
                );
                local.set(name, itself);
                match exec_block(&mut local, host, &body, depth) {
                    Ok(Some(v)) => Ok(v),
                    Ok(None) => Ok(Value::Nil),
                    Err(x) => Err(x),
                }
            },
        }
    }
}

/// Evaluate call arguments from left to right.
pub fn eval_args<H: Host>(env: &Env, host: &mut H, args: &Vec<Expr>, depth: usize) -> (r: Result<Vec<Value>, RuntimeError>)
    ensures
        extends(*final(host), *old(host)),
        forall|o: Answers| #[trigger] answered(*final(host), o) ==> args_v(env.view(), exprs_view(args@), depth as nat, o, trace(*old(host)))
            == (args_result_view(r), trace(*final(host))),
    decreases depth, 0nat, args,
{
    let ghost m = env.view();
    let ghost h0 = *host;
    let ghost sv = exprs_view(args@);
    proof {
        lemma_exprs_view_index(args@);
        lemma_extends_refl(h0);
    }
    let mut vals: Vec<Value> = Vec::new();
    let mut i: usize = 0;
    assert(sv.take(0) =~= Seq::<ExprView>::empty());
    assert(values_view(vals@) =~= Seq::<ValueView>::empty());
    while i < args.len()
        invariant
            sv == exprs_view(args@),
            sv.len() == args.len(),
            forall|k: int| 0 <= k < args.len() ==> #[trigger] sv[k] == expr_view(args@[k]),
            i <= args.len(),
            m == env.view(),
            h0 == *old(host),
            extends(*host, h0),
            forall|o: Answers| #[trigger] answered(*host, o) ==> args_v(m, sv.take(i as int), depth as nat, o, trace(h0)) == (
                Ok::<Seq<ValueView>, RuntimeError>(values_view(vals@)),
                trace(*host),
            ),
        decreases args.len() - i,
    {
        proof {
            assert(sv.take(i + 1).drop_last() =~= sv.take(i as int));
            assert(sv.take(i + 1).last() == sv[i as int]);
        }
        let ghost before = vals@;
        let ghost hb = *host;
        match eval_expr(env, host, &args[i], depth) {
            Ok(v) => {
                vals.push(v);
                assert(values_view(vals@) =~= values_view(before).push(v@));
                proof {
                    lemma_chain(h0, hb, *host);
                }
            },
            Err(x) => {
                proof {
                    lemma_chain(h0, hb, *host);
                    assert forall|o: Answers| #[trigger] answered(*host, o) implies args_v(m, sv, depth as nat, o, trace(h0)) == (
                        Err::<Seq<ValueView>, RuntimeError>(x),
                        trace(*host),
                    ) by {
                        lemma_args_prefix(m, sv, i + 1, depth as nat, o, trace(h0));
                    }
                }
                return Err(x);
            },
        }
        i = i + 1;
    }
    assert(sv.take(i as int) =~= sv);
    Ok(vals)
}

/// Run the statements in order; the first `return` reached or the first failure ends
/// the block.
pub fn exec_block<H: Host>(env: &mut Env, host: &mut H, stmts: &Vec<Statement>, depth: usize) -> (r: Result<
    Option<Value>,
    RuntimeError,
>)
    ensures
        extends(*final(host), *old(host)),
        forall|o: Answers| #[trigger] answered(*final(host), o) ==> block_v(old(env).view(), statements_view(stmts@), depth as nat, o,
            trace(*old(host))) == (opt_result_view(r), final(env).view(), trace(*final(host))),
    decreases depth, 1nat, stmts,
{
    let ghost m0 = env.view();
    let ghost h0 = *host;
    let ghost sv = statements_view(stmts@);
    let ghost d = depth as nat;
    proof {
        lemma_statements_view_index(stmts@);
        assert(sv.subrange(0, sv.len() as int) =~= sv);
        lemma_extends_refl(h0);
    }
    let mut i: usize = 0;
    while i < stmts.len()
        invariant
            sv == statements_view(stmts@),
            sv.len() == stmts.len(),
            forall|k: int| 0 <= k < stmts.len() ==> #[trigger] sv[k] == statement_view(stmts@[k]),
            m0 == old(env).view(),
            h0 == *old(host),
            d == depth as nat,
            i <= stmts.len(),
            extends(*host, h0),
            forall|o: Answers| #[trigger] answered(*host, o) ==> block_v(m0, sv, d, o, trace(h0)) == block_v(
                env.view(),
                sv.subrange(i as int, sv.len() as int),
                d,
                o,
                trace(*host),
            ),
        decreases stmts.len() - i,
    {
        proof {
            assert(sv.subrange(i as int, sv.len() as int)[0] == sv[i as int]);
            assert(sv.subrange(i as int, sv.len() as int).subrange(1, sv.len() - i) =~= sv.subrange(i + 1, sv.len() as int));
        }
        let ghost hb = *host;
        let r = exec_statement_in(env, host, &stmts[i], depth);
        proof {
            lemma_chain(h0, hb, *host);
        }
        match r {
            Ok(Some(v)) => return Ok(Some(v)),
            Ok(None) => {},
            Err(x) => return Err(x),
        }
        i = i + 1;
    }
    Ok(None)
}

/// Run one statement in `env`; `Some` carries the value of a `return` reached.
pub fn exec_statement_in<H: Host>(env: &mut Env, host: &mut H, s: &Statement, depth: usize) -> (r: Result<
    Option<Value>,
    RuntimeError,
>)
    ensures
        extends(*final(host), *old(host)),
        forall|o: Answers| #[trigger] answered(*final(host), o) ==> stmt_v(old(env).view(), statement_view(*s), depth as nat, o,
            trace(*old(host))) == (opt_result_view(r), final(env).view(), trace(*final(host))),
    decreases depth, 1nat, s,
{
    let ghost h0 = *host;
    proof {
        lemma_extends_refl(h0);
    }
    match s {
        Statement::Block(stmts) => exec_block(env, host, stmts, depth),
        Statement::Assign(name, e) => {
            let v = match eval_expr(env, host, e, depth) {
                Ok(v) => v,
                Err(x) => return Err(x),
            };
            env.set(name.clone(), v);
            Ok(None)
        },
        Statement::Fn { name, params, body } => {
            let f = Value::Function(
                Function::UserDefined {
                    name: name.clone(),
                    params: copy_names(params),
                    body: copy_statements(body),
                },
            );
            env.set(name.clone(), f);
            Ok(None)
        },
        Statement::Expr(e) => match eval_expr(env, host, e, depth) {
            Ok(_) => Ok(None),
            Err(x) => Err(x),
        },
        Statement::Return(e) => match eval_expr(env, host, e, depth) {
            Ok(v) => Ok(Some(v)),
            Err(x) => Err(x),
        },
        Statement::If { condition, body, else_body } => {
            let c = match eval_expr(env, host, condition, depth) {
                Ok(v) => v,
                Err(x) => return Err(x),
            };
            let ghost h1 = *host;
            match c {
                Value::Boolean(true) => {
                    let r = exec_block(env, host, body, depth);
                    proof {
                        lemma_chain(h0, h1, *host);
                    }
                    r
                },
                Value::Boolean(false) => {
                    let r = exec_block(env, host, else_body, depth);
                    proof {
                        lemma_chain(h0, h1, *host);
                    }
                    r
                },
                _ => Err(RuntimeError::ConditionNotBoolean),
            }
        },
    }
}

/// The interpreter: the top-level bindings of one program or session, and how deeply
/// user-defined function calls may nest.
pub struct VM {
    variables: Env,
    max_depth: usize,
}

impl VM {
    pub closed spec fn globals(&self) -> Bindings {
        self.variables.view()
    }

    pub closed spec fn call_limit(&self) -> usize {
        self.max_depth
    }

    /// An interpreter with no variables that lets calls nest `MAX_CALL_DEPTH` deep; the
    /// built-in classes are always present.
    pub fn new() -> (r: VM)
        ensures
            r.globals() == Map::<Seq<char>, ValueView>::empty(),
            r.call_limit() == MAX_CALL_DEPTH,
    {
        VM { variables: Env::new(), max_depth: MAX_CALL_DEPTH }
    }

    /// An interpreter with no variables that lets calls nest `limit` deep.
    pub fn with_call_limit(limit: usize) -> (r: VM)
        ensures
            r.globals() == Map::<Seq<char>, ValueView>::empty(),
            r.call_limit() == limit,
    {
        VM { variables: Env::new(), max_depth: limit }
    }

    /// Run one top-level statement; `Some` carries the value of a `return` reached.
    /// The outcome, the bindings after it and what it prints, waits and reads are
    /// those the language defines under the host's answers: bindings made by earlier
    /// statements stay, also when this one fails.
    pub fn exec_statement<H: Host>(&mut self, host: &mut H, stmt: &Statement) -> (r: Result<
        Option<Value>,
        RuntimeError,
    >)
        ensures
            extends(*final(host), *old(host)),
            final(self).call_limit() == old(self).call_limit(),
            forall|o: Answers| #[trigger] answered(*final(host), o) ==> stmt_v(old(self).globals(), statement_view(*stmt),
                old(self).call_limit() as nat, o, trace(*old(host))) == (opt_result_view(r), final(self).globals(), trace(
                *final(host),
            )),
    {
        exec_statement_in(&mut self.variables, host, stmt, self.max_depth)
    }

    /// The value of the top-level variable `name`.
    pub fn variable(&self, name: &str) -> (r: Option<Value>)
        ensures
            match r {
                Some(v) => self.globals().contains_key(name@) && self.globals()[name@] == v@,
                None => !self.globals().contains_key(name@),
            },
    {
        self.variables.get(name)
    }
}

/// Assignment needs no declaration: where its expression evaluates, `name = e` binds
/// `name` to the value whether or not `name` was bound before, and leaves the other
/// names as they were.
pub proof fn lemma_assign_binds(m: Bindings, name: Seq<char>, e: ExprView, depth: nat, o: Answers, t: Trace)
    requires
        eval_v(m, e, depth, o, t).0 is Ok,
    ensures
        ({
            let after = stmt_v(m, StatementView::Assign(name, e), depth, o, t).1;
            &&& stmt_v(m, StatementView::Assign(name, e), depth, o, t).0 == Ok::<Option<ValueView>, RuntimeError>(None)
            &&& after.contains_key(name)
            &&& after[name] == eval_v(m, e, depth, o, t).0->Ok_0
            &&& forall|n: Seq<char>| n != name ==> after.contains_key(n) == m.contains_key(n) && (m.contains_key(n) ==> after[n] == m[n])
        }),
{
}

/// Reading a field of a value that is no instance (a boolean, a function, nothing)
/// fails; no default value stands in for the field.
pub proof fn lemma_field_of_non_instance_fails(m: Bindings, parts: Seq<ExprView>, depth: nat, o: Answers, t: Trace)
    requires
        parts.len() >= 2,
        eval_v(m, parts[0], depth, o, t).0 matches Ok(v) && !is_instance_view(v),
    ensures
        eval_v(m, ExprView::Acessor(parts), depth, o, t).0 == Err::<ValueView, RuntimeError>(RuntimeError::NotAnInstance),
{
    reveal_with_fuel(access_chain, 2);
}

/// `+` on two strings gives their concatenation, and `-` on two strings fails as an
/// operator that strings do not implement.
pub proof fn lemma_string_operators(m: Bindings, a: Seq<char>, b: Seq<char>, depth: nat, o: Answers, t: Trace)
    ensures
        eval_v(m, ExprView::BinaryOp(TokenView::Plus, Box::new(ExprView::Str(a)), Box::new(ExprView::Str(b))), depth, o, t)
            == (Ok::<ValueView, RuntimeError>(ValueView::Str(a + b)), t),
        eval_v(m, ExprView::BinaryOp(TokenView::Minus, Box::new(ExprView::Str(a)), Box::new(ExprView::Str(b))), depth, o, t)
            == (Err::<ValueView, RuntimeError>(RuntimeError::UnsupportedOperator), t),
{
    reveal_with_fuel(eval_v, 2);
    assert(field_of(ValueView::Str(b), crate::value::word_value()) == Some(ValueView::Str(b)));
}

} // verus!
