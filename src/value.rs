use vstd::prelude::*;
use vstd::string::*;
use crate::number::{abs_spec, add_spec, compare_spec, div_spec, mul_spec, sub_spec, ArithError, Num};
use crate::grammar::{names_view, statements_view, StatementView};
use crate::statement::{copy_names, copy_statements, Statement};

verus! {

/// The operators that an instance may implement.
#[derive(Debug, Clone, Copy, PartialEq, Eq, Hash, Structural)]
pub enum MagicMethod {
    Add,
    Sub,
    Mul,
    Div,
    Equal,
    NotEqual,
    GreaterThan,
    LessThan,
}

/// Why the evaluation of a statement or expression failed.
#[derive(Debug, Clone, Copy, PartialEq, Eq, Structural)]
pub enum RuntimeError {
    /// A name bound neither to a variable nor to a class.
    NameNotFound,
    /// A call of a value that is no function.
    NotCallable,
    /// A field access on a value that is no instance.
    NotAnInstance,
    /// A field in an accessor chain that is no bare name.
    InvalidAccessor,
    FieldNotFound,
    /// Operands of types that the operator does not take.
    InvalidOperands,
    /// An operator that the left operand does not implement.
    UnsupportedOperator,
    ConditionNotBoolean,
    /// A numeric literal with a denominator that is not positive.
    InvalidNumber,
    DivisionByZero,
    /// An exact result that does not fit in 64 bits.
    NumericOverflow,
    /// Calls nested deeper than the interpreter allows.
    CallDepthExceeded,
    /// Arguments that a built-in function does not take.
    InvalidArguments,
    /// A date format that cannot be rendered.
    InvalidFormat,
    /// A clock reading that no date can hold.
    ClockOutOfRange,
}

#[derive(Debug, Clone, Copy, PartialEq, Eq, Structural)]
pub struct NumberInstance {
    pub value: Num,
}

#[derive(Debug, Clone, PartialEq, Eq)]
pub struct StringInstance {
    pub value: String,
}

/// The standard library object: `print`, `input` and the `Time` object.
#[derive(Debug, Clone, Copy, PartialEq, Eq, Structural)]
pub struct StdInstance;

/// The clock object: `now` and `sleep`.
#[derive(Debug, Clone, Copy, PartialEq, Eq, Structural)]
pub struct TimeInstance;

/// A point in time: seconds and nanoseconds since 1970-01-01 00:00:00 UTC.
#[derive(Debug, Clone, Copy, PartialEq, Eq, Structural)]
pub struct DatetimeInstance {
    pub secs: i64,
    pub nanos: u32,
}

/// An object of one of the built-in classes.
#[derive(Debug, PartialEq)]
pub enum Instance {
    Number(NumberInstance),
    String(StringInstance),
    Std(StdInstance),
    Time(TimeInstance),
    Datetime(DatetimeInstance),
}

/// A function implemented by the interpreter itself.
#[derive(Debug, Clone, Copy, PartialEq, Eq, Structural)]
pub enum Builtin {
    /// `Std.print`: writes its arguments and a newline.
    Print,
    /// `Std.input`: reads one line.
    Input,
    /// `n.abs` of the number it carries.
    Abs(Num),
    /// `Time.now`.
    Now,
    /// `Time.sleep(seconds)`.
    Sleep,
    /// `d.format(pattern)` of the date it carries.
    Format(DatetimeInstance),
}

#[derive(Debug, PartialEq)]
pub enum Function {
    Builtin(Builtin),
    UserDefined { name: String, params: Vec<String>, body: Vec<Statement> },
}

/// A value of the language.
#[derive(Debug, PartialEq)]
pub enum Value {
    /// No value: what a function gives back when it ends without `return`.
    Nil,
    Boolean(bool),
    ClassInstance(Instance),
    Function(Function),
}

/// A value with its text seen as characters, and a user function as its name,
/// parameters and body.
pub enum ValueView {
    Nil,
    Boolean(bool),
    Number(Num),
    Str(Seq<char>),
    Std,
    Time,
    Datetime(DatetimeInstance),
    Builtin(Builtin),
    UserFunction(Seq<char>, Seq<Seq<char>>, Seq<StatementView>),
}

impl View for Value {
    type V = ValueView;

    open spec fn view(&self) -> ValueView {
        match self {
            Value::Nil => ValueView::Nil,
            Value::Boolean(b) => ValueView::Boolean(*b),
            Value::ClassInstance(Instance::Number(n)) => ValueView::Number(n.value),
            Value::ClassInstance(Instance::String(s)) => ValueView::Str(s.value@),
            Value::ClassInstance(Instance::Std(_)) => ValueView::Std,
            Value::ClassInstance(Instance::Time(_)) => ValueView::Time,
            Value::ClassInstance(Instance::Datetime(d)) => ValueView::Datetime(*d),
            Value::Function(Function::Builtin(b)) => ValueView::Builtin(*b),
            Value::Function(Function::UserDefined { name, params, body }) => ValueView::UserFunction(
                name@,
                names_view(params@),
                statements_view(body@),
            ),
        }
    }
}

/// A value seen as a result of evaluation.
pub open spec fn result_view(r: Result<Value, RuntimeError>) -> Result<ValueView, RuntimeError> {
    match r {
        Ok(v) => Ok(v@),
        Err(e) => Err(e),
    }
}

/// Every number in the value has a positive denominator.
pub open spec fn view_wf(v: ValueView) -> bool {
    match v {
        ValueView::Number(n) => n.wf(),
        ValueView::Builtin(Builtin::Abs(n)) => n.wf(),
        _ => true,
    }
}

impl Value {
    pub open spec fn wf(&self) -> bool {
        view_wf(self@)
    }

    pub open spec fn is_instance(&self) -> bool {
        self is ClassInstance
    }

    /// A copy of the value.
    pub fn copied(&self) -> (r: Value)
        ensures
            r@ == self@,
    {
        match self {
            Value::Nil => Value::Nil,
            Value::Boolean(b) => Value::Boolean(*b),
            Value::ClassInstance(i) => Value::ClassInstance(i.copied()),
            Value::Function(Function::Builtin(b)) => Value::Function(Function::Builtin(*b)),
            Value::Function(Function::UserDefined { name, params, body }) => {
                let params = copy_names(params);
                Value::Function(
                    Function::UserDefined { name: name.clone(), params, body: copy_statements(body) },
                )
            },
        }
    }
}

pub open spec fn word_value() -> Seq<char> {
    seq!['v', 'a', 'l', 'u', 'e']
}

pub open spec fn word_abs() -> Seq<char> {
    seq!['a', 'b', 's']
}

pub open spec fn word_print() -> Seq<char> {
    seq!['p', 'r', 'i', 'n', 't']
}

pub open spec fn word_input() -> Seq<char> {
    seq!['i', 'n', 'p', 'u', 't']
}

pub open spec fn word_time() -> Seq<char> {
    seq!['T', 'i', 'm', 'e']
}

pub open spec fn word_now() -> Seq<char> {
    seq!['n', 'o', 'w']
}

pub open spec fn word_sleep() -> Seq<char> {
    seq!['s', 'l', 'e', 'e', 'p']
}

pub open spec fn word_format() -> Seq<char> {
    seq!['f', 'o', 'r', 'm', 'a', 't']
}

pub open spec fn word_number() -> Seq<char> {
    seq!['N', 'u', 'm', 'b', 'e', 'r']
}

pub open spec fn word_string() -> Seq<char> {
    seq!['S', 't', 'r', 'i', 'n', 'g']
}

pub open spec fn word_std() -> Seq<char> {
    seq!['S', 't', 'd']
}

/// The field `name` of a value: `None` where the value is no instance or has no such field.
pub open spec fn field_of(v: ValueView, name: Seq<char>) -> Option<ValueView> {
    match v {
        ValueView::Number(n) => if name == word_value() {
            Some(ValueView::Number(n))
        } else if name == word_abs() {
            Some(ValueView::Builtin(Builtin::Abs(n)))
        } else {
            None
        },
        ValueView::Str(s) => if name == word_value() {
            Some(ValueView::Str(s))
        } else {
            None
        },
        ValueView::Std => if name == word_print() {
            Some(ValueView::Builtin(Builtin::Print))
        } else if name == word_input() {
            Some(ValueView::Builtin(Builtin::Input))
        } else if name == word_time() {
            Some(ValueView::Time)
        } else {
            None
        },
        ValueView::Time => if name == word_now() {
            Some(ValueView::Builtin(Builtin::Now))
        } else if name == word_sleep() {
            Some(ValueView::Builtin(Builtin::Sleep))
        } else {
            None
        },
        ValueView::Datetime(d) => if name == word_format() {
            Some(ValueView::Builtin(Builtin::Format(d)))
        } else {
            None
        },
        _ => None,
    }
}

/// The default instance of the class named `name`, where there is such a class.
pub open spec fn class_default(name: Seq<char>) -> Option<ValueView> {
    if name == word_number() {
        Some(ValueView::Number(Num { num: 0, den: 1 }))
    } else if name == word_string() {
        Some(ValueView::Str(Seq::empty()))
    } else if name == word_std() {
        Some(ValueView::Std)
    } else if name == word_time() {
        Some(ValueView::Time)
    } else {
        None
    }
}

pub open spec fn arith_result(r: Result<Num, ArithError>) -> Result<ValueView, RuntimeError> {
    match r {
        Ok(n) => Ok(ValueView::Number(n)),
        Err(ArithError::DivisionByZero) => Err(RuntimeError::DivisionByZero),
        Err(ArithError::Overflow) => Err(RuntimeError::NumericOverflow),
    }
}

/// An operator applied to two numbers.
pub open spec fn number_magic(m: MagicMethod, a: Num, b: Num) -> Result<ValueView, RuntimeError> {
    if !(a.wf() && b.wf()) {
        Err(RuntimeError::InvalidNumber)
    } else {
        number_magic_wf(m, a, b)
    }
}

pub open spec fn number_magic_wf(m: MagicMethod, a: Num, b: Num) -> Result<ValueView, RuntimeError> {
    match m {
        MagicMethod::Add => arith_result(add_spec(a, b)),
        MagicMethod::Sub => arith_result(sub_spec(a, b)),
        MagicMethod::Mul => arith_result(mul_spec(a, b)),
        MagicMethod::Div => arith_result(div_spec(a, b)),
        MagicMethod::Equal => Ok(ValueView::Boolean(compare_spec(a, b) == 0)),
        MagicMethod::NotEqual => Ok(ValueView::Boolean(compare_spec(a, b) != 0)),
        MagicMethod::GreaterThan => Ok(ValueView::Boolean(compare_spec(a, b) > 0)),
        MagicMethod::LessThan => Ok(ValueView::Boolean(compare_spec(a, b) < 0)),
    }
}

/// An operator applied to two strings: only `+`, `==` and `!=` exist.
pub open spec fn string_magic(m: MagicMethod, a: Seq<char>, b: Seq<char>) -> Result<ValueView, RuntimeError> {
    match m {
        MagicMethod::Add => Ok(ValueView::Str(a + b)),
        MagicMethod::Equal => Ok(ValueView::Boolean(a == b)),
        MagicMethod::NotEqual => Ok(ValueView::Boolean(a != b)),
        _ => Err(RuntimeError::UnsupportedOperator),
    }
}

/// The operator `m` dispatched to the left operand: the right operand is read through
/// its `value` field, which must be of the left operand's type.
pub open spec fn magic_spec(m: MagicMethod, lhs: ValueView, rhs: ValueView) -> Result<ValueView, RuntimeError> {
    match lhs {
        ValueView::Number(a) => match field_of(rhs, word_value()) {
            Some(ValueView::Number(b)) => number_magic(m, a, b),
            _ => Err(RuntimeError::InvalidOperands),
        },
        ValueView::Str(a) => match field_of(rhs, word_value()) {
            Some(ValueView::Str(b)) => string_magic(m, a, b),
            _ => Err(RuntimeError::InvalidOperands),
        },
        ValueView::Std | ValueView::Time | ValueView::Datetime(_) => Err(RuntimeError::UnsupportedOperator),
        _ => Err(RuntimeError::InvalidOperands),
    }
}

/// Whether `a` and `b` hold the same text.
pub fn str_is(a: &str, b: &str) -> (r: bool)
    ensures
        r == (a@ == b@),
{
    let x = a.to_owned();
    let y = b.to_owned();
    x == y
}

fn arith_value(r: Result<Num, ArithError>) -> (v: Result<Value, RuntimeError>)
    ensures
        result_view(v) == arith_result(r),
{
    match r {
        Ok(n) => Ok(Value::ClassInstance(Instance::Number(NumberInstance { value: n }))),
        Err(ArithError::DivisionByZero) => Err(RuntimeError::DivisionByZero),
        Err(ArithError::Overflow) => Err(RuntimeError::NumericOverflow),
    }
}

impl NumberInstance {
    pub fn new(value: Num) -> (r: Self)
        ensures
            r.value == value,
    {
        NumberInstance { value }
    }

    /// The fields of a number: `value` and `abs`.
    pub fn get_field(&self, name: &str) -> (r: Option<Value>)
        ensures
            match r {
                Some(v) => field_of(ValueView::Number(self.value), name@) == Some(v@),
                None => field_of(ValueView::Number(self.value), name@) is None,
            },
    {
        proof {
            reveal_strlit("value");
            reveal_strlit("abs");
            assert("value"@ =~= word_value());
            assert("abs"@ =~= word_abs());
        }
        if str_is(name, "value") {
            Some(Value::ClassInstance(Instance::Number(NumberInstance { value: self.value })))
        } else if str_is(name, "abs") {
            Some(Value::Function(Function::Builtin(Builtin::Abs(self.value))))
        } else {
            None
        }
    }

    /// The operator `method` with this number on the left of `rhs`.
    pub fn call_magic(&self, method: MagicMethod, rhs: &Value) -> (r: Result<Value, RuntimeError>)
        ensures
            result_view(r) == magic_spec(method, ValueView::Number(self.value), rhs@),
            r matches Ok(v) ==> v.wf(),
    {
        let b = match rhs {
            Value::ClassInstance(Instance::Number(n)) => n.value,
            _ => {
                proof {
                    reveal_strlit("value");
                    assert("value"@ =~= word_value());
                }
                return Err(RuntimeError::InvalidOperands);
            },
        };
        let a = self.value;
        if a.den <= 0 || b.den <= 0 {
            return Err(RuntimeError::InvalidNumber);
        }
        match method {
            MagicMethod::Add => arith_value(a.add(b)),
            MagicMethod::Sub => arith_value(a.sub(b)),
            MagicMethod::Mul => arith_value(a.mul(b)),
            MagicMethod::Div => arith_value(a.div(b)),
            MagicMethod::Equal => Ok(Value::Boolean(a.compare(b) == 0)),
            MagicMethod::NotEqual => Ok(Value::Boolean(a.compare(b) != 0)),
            MagicMethod::GreaterThan => Ok(Value::Boolean(a.compare(b) > 0)),
            MagicMethod::LessThan => Ok(Value::Boolean(a.compare(b) < 0)),
        }
    }
}

impl StringInstance {
    /// The fields of a string: `value`.
    pub fn get_field(&self, name: &str) -> (r: Option<Value>)
        ensures
            match r {
                Some(v) => field_of(ValueView::Str(self.value@), name@) == Some(v@),
                None => field_of(ValueView::Str(self.value@), name@) is None,
            },
    {
        proof {
            reveal_strlit("value");
            assert("value"@ =~= word_value());
        }
        if str_is(name, "value") {
            Some(Value::ClassInstance(Instance::String(StringInstance { value: self.value.clone() })))
        } else {
            None
        }
    }

    /// The operator `method` with this string on the left of `rhs`.
    pub fn call_magic(&self, method: MagicMethod, rhs: &Value) -> (r: Result<Value, RuntimeError>)
        ensures
            result_view(r) == magic_spec(method, ValueView::Str(self.value@), rhs@),
            r matches Ok(v) ==> v.wf(),
    {
        proof {
            reveal_strlit("value");
            assert("value"@ =~= word_value());
        }
        let b = match rhs {
            Value::ClassInstance(Instance::String(s)) => &s.value,
            _ => return Err(RuntimeError::InvalidOperands),
        };
        match method {
            MagicMethod::Add => {
                let joined = self.value.clone().concat(b.as_str());
                Ok(Value::ClassInstance(Instance::String(StringInstance { value: joined })))
            },
            MagicMethod::Equal => Ok(Value::Boolean(self.value == *b)),
            MagicMethod::NotEqual => Ok(Value::Boolean(!(self.value == *b))),
            _ => Err(RuntimeError::UnsupportedOperator),
        }
    }
}

impl StdInstance {
    /// The fields of the standard library object: `print`, `input` and `Time`.
    pub fn get_field(&self, name: &str) -> (r: Option<Value>)
        ensures
            match r {
                Some(v) => field_of(ValueView::Std, name@) == Some(v@),
                None => field_of(ValueView::Std, name@) is None,
            },
    {
        proof {
            reveal_strlit("print");
            reveal_strlit("input");
            reveal_strlit("Time");
            assert("print"@ =~= word_print());
            assert("input"@ =~= word_input());
            assert("Time"@ =~= word_time());
        }
        if str_is(name, "print") {
            Some(Value::Function(Function::Builtin(Builtin::Print)))
        } else if str_is(name, "input") {
            Some(Value::Function(Function::Builtin(Builtin::Input)))
        } else if str_is(name, "Time") {
            Some(Value::ClassInstance(Instance::Time(TimeInstance)))
        } else {
            None
        }
    }
}

impl TimeInstance {
    /// The fields of the clock object: `now` and `sleep`.
    pub fn get_field(&self, name: &str) -> (r: Option<Value>)
        ensures
            match r {
                Some(v) => field_of(ValueView::Time, name@) == Some(v@),
                None => field_of(ValueView::Time, name@) is None,
            },
    {
        proof {
            reveal_strlit("now");
            reveal_strlit("sleep");
            assert("now"@ =~= word_now());
            assert("sleep"@ =~= word_sleep());
        }
        if str_is(name, "now") {
            Some(Value::Function(Function::Builtin(Builtin::Now)))
        } else if str_is(name, "sleep") {
            Some(Value::Function(Function::Builtin(Builtin::Sleep)))
        } else {
            None
        }
    }
}

impl DatetimeInstance {
    /// The fields of a point in time: `format`.
    pub fn get_field(&self, name: &str) -> (r: Option<Value>)
        ensures
            match r {
                Some(v) => field_of(ValueView::Datetime(*self), name@) == Some(v@),
                None => field_of(ValueView::Datetime(*self), name@) is None,
            },
    {
        proof {
            reveal_strlit("format");
            assert("format"@ =~= word_format());
        }
        if str_is(name, "format") {
            Some(Value::Function(Function::Builtin(Builtin::Format(*self))))
        } else {
            None
        }
    }
}

impl Instance {
    /// A copy of the instance.
    pub fn copied(&self) -> (r: Instance)
        ensures
            Value::ClassInstance(r)@ == Value::ClassInstance(*self)@,
    {
        match self {
            Instance::Number(n) => Instance::Number(*n),
            Instance::String(s) => Instance::String(StringInstance { value: s.value.clone() }),
            Instance::Std(_) => Instance::Std(StdInstance),
            Instance::Time(_) => Instance::Time(TimeInstance),
            Instance::Datetime(d) => Instance::Datetime(*d),
        }
    }

    /// The field `name` of the instance.
    pub fn get_field(&self, name: &str) -> (r: Option<Value>)
        ensures
            match r {
                Some(v) => field_of(Value::ClassInstance(*self)@, name@) == Some(v@),
                None => field_of(Value::ClassInstance(*self)@, name@) is None,
            },
    {
        match self {
            Instance::Number(n) => n.get_field(name),
            Instance::String(s) => s.get_field(name),
            Instance::Std(s) => s.get_field(name),
            Instance::Time(t) => t.get_field(name),
            Instance::Datetime(d) => d.get_field(name),
        }
    }

    /// The operator `method` with this instance on the left of `rhs`.
    pub fn call_magic(&self, method: MagicMethod, rhs: &Value) -> (r: Result<Value, RuntimeError>)
        ensures
            result_view(r) == magic_spec(method, Value::ClassInstance(*self)@, rhs@),
            r matches Ok(v) ==> v.wf(),
    {
        match self {
            Instance::Number(n) => n.call_magic(method, rhs),
            Instance::String(s) => s.call_magic(method, rhs),
            _ => Err(RuntimeError::UnsupportedOperator),
        }
    }
}

/// The class `Number`: its default instance is zero.
pub struct NumberClass;

/// The class `String`: its default instance is the empty string.
pub struct StringClass;

/// The class `Std`.
pub struct StdClass;

/// The class `Time`.
pub struct TimeClass;

impl NumberClass {
    pub fn create_instance(&self) -> (r: NumberInstance)
        ensures
            r.value == (Num { num: 0, den: 1 }),
    {
        NumberInstance { value: Num { num: 0, den: 1 } }
    }
}

impl StringClass {
    pub fn create_instance(&self) -> (r: StringInstance)
        ensures
            r.value@ == Seq::<char>::empty(),
    {
        StringInstance { value: String::new() }
    }
}

impl StdClass {
    pub fn create_instance(&self) -> (r: StdInstance) {
        StdInstance
    }
}

impl TimeClass {
    pub fn create_instance(&self) -> (r: TimeInstance) {
        TimeInstance
    }
}

/// The default instance of the built-in class named `name`: the class table.
pub fn class_instance(name: &str) -> (r: Option<Value>)
    ensures
        match r {
            Some(v) => class_default(name@) == Some(v@),
            None => class_default(name@) is None,
        },
{
    proof {
        reveal_strlit("Number");
        reveal_strlit("String");
        reveal_strlit("Std");
        reveal_strlit("Time");
        assert("Number"@ =~= word_number());
        assert("String"@ =~= word_string());
        assert("Std"@ =~= word_std());
        assert("Time"@ =~= word_time());
    }
    if str_is(name, "Number") {
        Some(Value::ClassInstance(Instance::Number(NumberClass.create_instance())))
    } else if str_is(name, "String") {
        Some(Value::ClassInstance(Instance::String(StringClass.create_instance())))
    } else if str_is(name, "Std") {
        Some(Value::ClassInstance(Instance::Std(StdClass.create_instance())))
    } else if str_is(name, "Time") {
        Some(Value::ClassInstance(Instance::Time(TimeClass.create_instance())))
    } else {
        None
    }
}

} // verus!
