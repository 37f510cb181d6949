use frutta::number::Num;
use frutta::parser::Parser;
use frutta::statement::Statement;
use frutta::value::{
    DatetimeInstance, Instance, MagicMethod, NumberInstance, RuntimeError, StringInstance, Value,
};
use frutta::vm::{Console, Io, ScriptedHost, VM};

#[derive(Default)]
struct Recorder {
    printed: Vec<Vec<String>>,
    lines: Vec<String>,
    slept: Vec<Num>,
}

fn show(v: &Value) -> String {
    match v {
        Value::Nil => "None".to_string(),
        Value::Boolean(b) => b.to_string(),
        Value::ClassInstance(Instance::Number(n)) => format!("{}/{}", n.value.num, n.value.den),
        Value::ClassInstance(Instance::String(s)) => s.value.clone(),
        _ => "<object>".to_string(),
    }
}

impl Io for Recorder {
    fn print(&mut self, args: &Vec<Value>) {
        self.printed.push(args.iter().map(show).collect());
    }

    fn read_line(&mut self) -> String {
        self.lines.pop().unwrap_or_default()
    }

    fn sleep(&mut self, seconds: Num) {
        self.slept.push(seconds);
    }
}

fn run(vm: &mut VM, host: &mut Console<Recorder>, source: &str) -> Result<Option<Value>, RuntimeError> {
    let program = Parser::parse(source).unwrap();
    vm.exec_statement(host, &program)
}

fn number(v: &Value) -> Num {
    match v {
        Value::ClassInstance(Instance::Number(NumberInstance { value })) => *value,
        _ => panic!("not a number: {:?}", v),
    }
}

fn text(v: &Value) -> String {
    match v {
        Value::ClassInstance(Instance::String(StringInstance { value })) => value.clone(),
        _ => panic!("not a string: {:?}", v),
    }
}

const FIB: &str = "fn fib(n) { if n == 0 {return 0} if n == 1 {return 1} return fib(n-1)+fib(n-2)} ";

#[test]
fn fibonacci_of_ten() {
    let mut vm = VM::new();
    let mut host = Console::new(Recorder::default());
    let r = run(&mut vm, &mut host, &format!("{}fib(10)\nreturn fib(10)", FIB)).unwrap().unwrap();
    assert_eq!(number(&r), Num::integer(55));
    run(&mut vm, &mut host, "x = fib(10)").unwrap();
    assert_eq!(number(&vm.variable("x").unwrap()), Num::integer(55));
}

#[test]
fn assignment_creates_a_binding() {
    let mut vm = VM::new();
    let mut host = Console::new(Recorder::default());
    assert!(vm.variable("x").is_none());
    assert_eq!(run(&mut vm, &mut host, "x = 5"), Ok(None));
    assert_eq!(number(&vm.variable("x").unwrap()), Num::integer(5));
    run(&mut vm, &mut host, "x = x + 1").unwrap();
    assert_eq!(number(&vm.variable("x").unwrap()), Num::integer(6));
}

#[test]
fn field_access_on_boolean_fails() {
    let mut vm = VM::new();
    let mut host = Console::new(Recorder::default());
    run(&mut vm, &mut host, "b = true").unwrap();
    assert_eq!(run(&mut vm, &mut host, "c = b.value"), Err(RuntimeError::NotAnInstance));
    assert!(vm.variable("c").is_none());
    assert_eq!(run(&mut vm, &mut host, "c = true.value"), Err(RuntimeError::NotAnInstance));
}

#[test]
fn string_concatenation_and_unsupported_minus() {
    let mut vm = VM::new();
    let mut host = Console::new(Recorder::default());
    run(&mut vm, &mut host, "s = \"a\" + \"b\"").unwrap();
    assert_eq!(text(&vm.variable("s").unwrap()), "ab");
    assert_eq!(run(&mut vm, &mut host, "t = \"a\" - \"b\""), Err(RuntimeError::UnsupportedOperator));
    assert_eq!(run(&mut vm, &mut host, "t = \"a\" + 1"), Err(RuntimeError::InvalidOperands));
    assert_eq!(run(&mut vm, &mut host, "t = \"a\" == \"a\""), Ok(None));
    assert_eq!(vm.variable("t"), Some(Value::Boolean(true)));
}

#[test]
fn exact_arithmetic() {
    let mut vm = VM::new();
    let mut host = Console::new(Recorder::default());
    run(&mut vm, &mut host, "a = 0.1 + 0.2\nb = a == 0.3\nc = 7 / 2\nd = 2 - 5\ne = 3 * 4 > 11").unwrap();
    assert_eq!(number(&vm.variable("a").unwrap()), Num::from_parts(3, 10));
    assert_eq!(vm.variable("b"), Some(Value::Boolean(true)));
    assert_eq!(number(&vm.variable("c").unwrap()), Num::from_parts(7, 2));
    assert_eq!(number(&vm.variable("d").unwrap()), Num::integer(-3));
    assert_eq!(vm.variable("e"), Some(Value::Boolean(true)));
    assert_eq!(run(&mut vm, &mut host, "z = 1 / 0"), Err(RuntimeError::DivisionByZero));
    assert_eq!(run(&mut vm, &mut host, "z = 9223372036854775807 + 1"), Err(RuntimeError::NumericOverflow));
    assert_eq!(run(&mut vm, &mut host, "z = 5 % 2"), Err(RuntimeError::UnsupportedOperator));
}

#[test]
fn number_magic_methods() {
    let two = NumberInstance::new(Num::integer(2));
    let three = Value::ClassInstance(Instance::Number(NumberInstance::new(Num::integer(3))));
    assert_eq!(
        two.call_magic(MagicMethod::Sub, &three),
        Ok(Value::ClassInstance(Instance::Number(NumberInstance::new(Num::integer(-1)))))
    );
    assert_eq!(two.call_magic(MagicMethod::LessThan, &three), Ok(Value::Boolean(true)));
    assert_eq!(two.call_magic(MagicMethod::NotEqual, &three), Ok(Value::Boolean(true)));
    assert_eq!(two.call_magic(MagicMethod::Equal, &Value::Boolean(true)), Err(RuntimeError::InvalidOperands));
}

#[test]
fn fields_and_builtins() {
    let mut vm = VM::new();
    let mut host = Console::new(Recorder::default());
    run(&mut vm, &mut host, "n = 0 - 4\nm = n.abs()\nv = n.value\nz = Number").unwrap();
    assert_eq!(number(&vm.variable("m").unwrap()), Num::integer(4));
    assert_eq!(number(&vm.variable("v").unwrap()), Num::integer(-4));
    assert_eq!(number(&vm.variable("z").unwrap()), Num::integer(0));
    assert_eq!(run(&mut vm, &mut host, "w = n.missing"), Err(RuntimeError::FieldNotFound));
    assert_eq!(run(&mut vm, &mut host, "w = nothing"), Err(RuntimeError::NameNotFound));
    assert_eq!(run(&mut vm, &mut host, "w = n.(1)"), Err(RuntimeError::InvalidAccessor));
    assert_eq!(run(&mut vm, &mut host, "w = n(1)"), Err(RuntimeError::NotCallable));
}

#[test]
fn std_print_input_and_sleep() {
    let mut vm = VM::new();
    let mut host = Console::new(Recorder::default());
    host.io.lines.push("hello".to_string());
    run(&mut vm, &mut host, "Std.print(\"x = \", 1 + 1)\nline = Std.input()\nStd.Time.sleep(2)").unwrap();
    assert_eq!(host.io.printed, vec![vec!["x = ".to_string(), "2/1".to_string()]]);
    assert_eq!(text(&vm.variable("line").unwrap()), "hello");
    assert_eq!(host.io.slept, vec![Num::integer(2)]);
    assert_eq!(run(&mut vm, &mut host, "Time.sleep(\"a\")"), Err(RuntimeError::InvalidArguments));
}

#[test]
fn dates_format_through_chrono() {
    let epoch = DatetimeInstance { secs: 86_400 + 3_661, nanos: 0 };
    assert_eq!(epoch.format("%Y-%m-%d %H:%M:%S"), Some("1970-01-02 01:01:01".to_string()));
    assert_eq!(epoch.format("%Q"), None);
    let mut vm = VM::new();
    let mut host = Console::new(Recorder::default());
    run(&mut vm, &mut host, "t = Time.now()\ny = t.format(\"%Y\")").unwrap();
    assert_eq!(text(&vm.variable("y").unwrap()).len(), 4);
}

#[test]
fn conditions_must_be_booleans() {
    let mut vm = VM::new();
    let mut host = Console::new(Recorder::default());
    assert_eq!(run(&mut vm, &mut host, "if 1 { x = 1 }"), Err(RuntimeError::ConditionNotBoolean));
    run(&mut vm, &mut host, "if 1 > 2 { x = 1 } else { x = 2 }").unwrap();
    assert_eq!(number(&vm.variable("x").unwrap()), Num::integer(2));
}

#[test]
fn calls_see_caller_bindings_and_do_not_change_them() {
    let mut vm = VM::new();
    let mut host = Console::new(Recorder::default());
    run(&mut vm, &mut host, "k = 10\nfn f(a) { k = k + a\n return k }\nr = f(5)").unwrap();
    assert_eq!(number(&vm.variable("r").unwrap()), Num::integer(15));
    assert_eq!(number(&vm.variable("k").unwrap()), Num::integer(10));
    run(&mut vm, &mut host, "fn g() { x = 1 }\nq = g()").unwrap();
    assert_eq!(vm.variable("q"), Some(Value::Nil));
}

#[test]
fn runaway_recursion_is_stopped() {
    let mut vm = VM::new();
    let mut host = Console::new(Recorder::default());
    assert_eq!(
        run(&mut vm, &mut host, "fn loop(n) { return loop(n) }\nloop(1)"),
        Err(RuntimeError::CallDepthExceeded)
    );
}

#[test]
fn block_stops_at_first_return() {
    let mut vm = VM::new();
    let mut host = Console::new(Recorder::default());
    let program = Parser::parse("a = 1\n{ return a\n a = 2 }\na = 3").unwrap();
    assert!(matches!(program, Statement::Block(_)));
    let r = vm.exec_statement(&mut host, &program).unwrap().unwrap();
    assert_eq!(number(&r), Num::integer(1));
    assert_eq!(number(&vm.variable("a").unwrap()), Num::integer(1));
}

#[test]
fn calling_a_function_value_directly() {
    let mut vm = VM::new();
    let mut host = Console::new(Recorder::default());
    run(&mut vm, &mut host, "fn twice(x) { return x * 2 }").unwrap();
    let f = match vm.variable("twice") {
        Some(Value::Function(f)) => f,
        other => panic!("not a function: {:?}", other),
    };
    let scope = frutta::env::Env::new();
    let three = Value::ClassInstance(Instance::Number(NumberInstance::new(Num::integer(3))));
    let r = f.call(vec![three], &scope, &mut host, 10).unwrap();
    assert_eq!(number(&r), Num::integer(6));
}

#[test]
fn environment_set_and_get() {
    let mut env = frutta::env::Env::new();
    assert!(env.get("a").is_none());
    env.set("a".to_string(), Value::Boolean(true));
    env.set("b".to_string(), Value::Nil);
    env.set("a".to_string(), Value::Boolean(false));
    assert_eq!(env.get("a"), Some(Value::Boolean(false)));
    assert_eq!(env.get("b"), Some(Value::Nil));
    let copy = env.copied();
    assert_eq!(copy.get("a"), Some(Value::Boolean(false)));
}

#[test]
fn results_are_kept_in_lowest_terms() {
    let mut vm = VM::new();
    let mut host = Console::new(Recorder::default());
    run(&mut vm, &mut host, "fn s(n) { if n == 0 { return 0 } return s(n - 1) + 0.1 }\nr = s(30)\nh = 6 / 4").unwrap();
    assert_eq!(number(&vm.variable("r").unwrap()), Num::integer(3));
    assert_eq!(number(&vm.variable("h").unwrap()), Num::from_parts(3, 2));
    run(&mut vm, &mut host, "q = 1 / (0 - 2)").unwrap();
    assert_eq!(number(&vm.variable("q").unwrap()), Num::from_parts(-1, 2));
}

#[test]
fn scripted_host_records_prints_and_answers_input() {
    let mut vm = VM::new();
    let mut host = ScriptedHost::new(vec!["second".to_string(), "first".to_string()]);
    let program = Parser::parse("a = Std.input()\nb = Std.input()\nStd.print(a, b)\nTime.sleep(0.5)").unwrap();
    vm.exec_statement(&mut host, &program).unwrap();
    assert_eq!(text(&vm.variable("a").unwrap()), "first");
    assert_eq!(text(&vm.variable("b").unwrap()), "second");
    assert_eq!(host.output.len(), 1);
    assert_eq!(text(&host.output[0][0]), "first");
    assert_eq!(text(&host.output[0][1]), "second");
    assert_eq!(host.waits, vec![Num::from_parts(5, 10)]);
}

#[test]
fn call_limit_can_be_chosen() {
    let mut vm = VM::with_call_limit(2000);
    let mut host = Console::new(Recorder::default());
    let r = run(&mut vm, &mut host, "fn down(n) { if n == 0 { return 0 } return down(n - 1) }\nreturn down(1000)");
    assert_eq!(number(&r.unwrap().unwrap()), Num::integer(0));
    let mut small = VM::with_call_limit(3);
    assert_eq!(
        run(&mut small, &mut host, "fn down(n) { if n == 0 { return 0 } return down(n - 1) }\nreturn down(5)"),
        Err(RuntimeError::CallDepthExceeded)
    );
}
