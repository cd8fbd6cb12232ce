use lox_compiler::interpret;

fn run(src: &str) -> Vec<String> {
    interpret(&src.to_string())
}

#[test]
fn arithmetic_and_precedence() {
    assert_eq!(run("print 1 + 2 * 3;"), vec!["7".to_string()]);
}

#[test]
fn closures_capture_by_reference() {
    let src = "
        fun mk() { var x = 0; fun inc() { x = x + 1; return x; } return inc; }
        var f = mk(); print f(); print f(); print f();
    ";
    assert_eq!(
        run(src),
        vec!["1".to_string(), "2".to_string(), "3".to_string()]
    );
}

#[test]
fn class_with_init_and_method() {
    let src = "
        class Greeter { init(n) { this.n = n; }
          hi() { return \"hi \" + this.n; } }
        print Greeter(\"lox\").hi();
    ";
    assert_eq!(run(src), vec!["hi lox".to_string()]);
}

#[test]
fn inheritance_and_super() {
    let src = "
        class A { speak() { return \"A\"; } }
        class B < A { speak() { return super.speak() + \"B\"; } }
        print B().speak();
    ";
    assert_eq!(run(src), vec!["AB".to_string()]);
}

#[test]
fn for_loop_scoping() {
    let src = "
        var s = 0;
        for (var i = 0; i < 5; i = i + 1) { s = s + i; }
        print s;
    ";
    assert_eq!(run(src), vec!["10".to_string()]);
}

#[test]
fn static_error_self_inheritance() {
    let lines = run("class Oroboros < Oroboros {}");
    assert_eq!(lines.len(), 1);
    assert!(lines[0].contains("can't inherit from itself"));
}

#[test]
fn division_gives_fractions() {
    assert_eq!(run("print 7 / 2;"), vec!["3.5".to_string()]);
}

#[test]
fn fractional_literals() {
    assert_eq!(run("print 0.5 + 0.25;"), vec!["0.75".to_string()]);
}

#[test]
fn unary_minus_and_bang() {
    assert_eq!(run("print -3 + 4;"), vec!["1".to_string()]);
    // zero is falsy in this dialect
    assert_eq!(run("print !0;"), vec!["true".to_string()]);
    assert_eq!(run("print !\"\";"), vec!["true".to_string()]);
    assert_eq!(run("print !nil;"), vec!["true".to_string()]);
    assert_eq!(run("print !1;"), vec!["false".to_string()]);
}

#[test]
fn string_concatenation() {
    assert_eq!(run("print \"a\" + \"b\";"), vec!["ab".to_string()]);
}

#[test]
fn logical_operators_return_deciding_value() {
    assert_eq!(run("print 0 or \"yes\";"), vec!["yes".to_string()]);
    assert_eq!(run("print 1 or \"no\";"), vec!["1".to_string()]);
    assert_eq!(run("print 1 and \"yes\";"), vec!["yes".to_string()]);
    assert_eq!(run("print 0 and \"no\";"), vec!["0".to_string()]);
}

#[test]
fn booleans_and_nil_render() {
    assert_eq!(run("print true;"), vec!["true".to_string()]);
    assert_eq!(run("print false;"), vec!["false".to_string()]);
    assert_eq!(run("print nil;"), vec!["Nil".to_string()]);
}

#[test]
fn mixed_type_equality_is_an_error() {
    let lines = run("print 1 == \"1\";");
    assert_eq!(lines.len(), 1);
    assert!(lines[0].contains("only support number/string/boolean"));
}

#[test]
fn equality_on_matching_types() {
    assert_eq!(run("print 1 == 1;"), vec!["true".to_string()]);
    assert_eq!(run("print 1 != 2;"), vec!["true".to_string()]);
    assert_eq!(run("print \"a\" == \"a\";"), vec!["true".to_string()]);
    assert_eq!(run("print true == false;"), vec!["false".to_string()]);
}

#[test]
fn while_loop_runs() {
    let src = "
        var n = 3;
        while (n > 0) { print n; n = n - 1; }
    ";
    assert_eq!(
        run(src),
        vec!["3".to_string(), "2".to_string(), "1".to_string()]
    );
}

#[test]
fn for_without_condition_does_not_run() {
    let src = "
        var s = 1;
        for (var i = 0; ;) { s = 99; }
        print s;
    ";
    assert_eq!(run(src), vec!["1".to_string()]);
}

#[test]
fn printing_twice_gives_the_same_line_twice() {
    let lines = run("var x = 41 + 1; print x; print x;");
    assert_eq!(lines, vec!["42".to_string(), "42".to_string()]);
}

#[test]
fn undefined_variable_is_a_runtime_error() {
    let lines = run("print missing;");
    assert_eq!(lines.len(), 1);
    assert!(lines[0].contains("Undefined variable at missing"));
}

#[test]
fn calling_a_number_is_an_error() {
    let lines = run("var x = 1; x();");
    assert_eq!(lines.len(), 1);
    assert!(lines[0].contains("Can only call functions and classes"));
}

#[test]
fn property_on_non_instance_is_an_error() {
    let lines = run("var x = 1; print x.y;");
    assert_eq!(lines.len(), 1);
    assert!(lines[0].contains("Only instances have properties"));
}

#[test]
fn undefined_property_is_an_error() {
    let lines = run("class C {} var c = C(); print c.missing;");
    assert_eq!(lines.len(), 1);
    assert!(lines[0].contains("Undefined property missing"));
}

#[test]
fn arity_mismatch_is_an_error() {
    let lines = run("fun f(a, b) { return a; } f(1);");
    assert_eq!(lines.len(), 1);
    assert!(lines[0].contains("Expect 2 arguments but got 1"));
}

#[test]
fn printing_a_function_is_an_error() {
    let lines = run("fun f() { return 1; } print f;");
    assert_eq!(lines.len(), 1);
    assert!(lines[0].contains("Lox only support print String/Boolean/Number"));
}

#[test]
fn superclass_must_be_a_class() {
    let lines = run("var A = 1; class B < A {}");
    assert_eq!(lines.len(), 1);
    assert!(lines[0].contains("Superclass must be a class"));
}

#[test]
fn return_outside_function_is_a_static_error() {
    let lines = run("return 1;");
    assert_eq!(lines.len(), 1);
    assert!(lines[0].contains("Can't return from top-level code"));
}

#[test]
fn this_outside_class_is_a_static_error() {
    let lines = run("print this;");
    assert_eq!(lines.len(), 1);
    assert!(lines[0].contains("Can't use \"this\" outside of a class"));
}

#[test]
fn reading_local_in_its_own_initializer_is_a_static_error() {
    let lines = run("{ var a = a; }");
    assert_eq!(lines.len(), 1);
    assert!(lines[0].contains("Can't read local variable in its own initializer"));
}

#[test]
fn field_mutation_through_this_persists() {
    let src = "
        class Counter {
          init() { this.n = 0; }
          add() { this.n = this.n + 1; return this.n; }
        }
        var c = Counter();
        c.add();
        c.add();
        print c.n;
    ";
    assert_eq!(run(src), vec!["2".to_string()]);
}

#[test]
fn block_scoping_shadows_and_restores() {
    let src = "
        var a = \"outer\";
        { var a = \"inner\"; print a; }
        print a;
    ";
    assert_eq!(run(src), vec!["inner".to_string(), "outer".to_string()]);
}

#[test]
fn if_else_branches() {
    assert_eq!(
        run("if (1 < 2) { print \"yes\"; } else { print \"no\"; }"),
        vec!["yes".to_string()]
    );
    assert_eq!(
        run("if (2 < 1) { print \"yes\"; } else { print \"no\"; }"),
        vec!["no".to_string()]
    );
}

#[test]
fn unterminated_string_is_a_scan_error() {
    let lines = run("var s = \"oops;");
    assert_eq!(lines.len(), 1);
    assert!(lines[0].contains("Unterminated string"));
}

#[test]
fn unexpected_character_is_a_scan_error() {
    let lines = run("var a = 1 # 2;");
    assert_eq!(lines.len(), 1);
    assert!(lines[0].contains("Unexpected character"));
}

#[test]
fn single_quoted_strings_work() {
    assert_eq!(run("print 'abc';"), vec!["abc".to_string()]);
}

#[test]
fn cjk_identifiers_are_accepted() {
    let src = "var 数值 = 2; print 数值 * 3;";
    assert_eq!(run(src), vec!["6".to_string()]);
}

#[test]
fn recursion_works() {
    let src = "
        fun fib(n) { if (n < 2) { return n; } return fib(n - 1) + fib(n - 2); }
        print fib(10);
    ";
    assert_eq!(run(src), vec!["55".to_string()]);
}

#[test]
fn inherited_method_found_through_chain() {
    let src = "
        class A { ping() { return \"pong\"; } }
        class B < A {}
        class C < B {}
        print C().ping();
    ";
    assert_eq!(run(src), vec!["pong".to_string()]);
}

#[test]
fn methods_close_over_globals() {
    let src = "
        var suffix = \"!\";
        class Sayer { say(w) { return w + suffix; } }
        print Sayer().say(\"hi\");
    ";
    assert_eq!(run(src), vec!["hi!".to_string()]);
}

#[test]
fn initializer_returns_the_receiver() {
    let src = "
        class P { init() { this.v = 7; return; } }
        var p = P();
        print p.v;
    ";
    assert_eq!(run(src), vec!["7".to_string()]);
}

#[test]
fn returning_a_value_from_init_is_a_static_error() {
    let lines = run("class P { init() { return 3; } }");
    assert_eq!(lines.len(), 1);
    assert!(lines[0].contains("Can't return a value from an initializer"));
}

#[test]
fn super_outside_subclass_is_a_static_error() {
    let lines = run("class A { m() { return super.m(); } }");
    assert_eq!(lines.len(), 1);
    assert!(lines[0].contains("Can't use \"super\" in a class with no superclass"));
}

#[test]
fn diagnostics_carry_line_and_column() {
    let lines = run("var a = 1;\nprint missing;");
    assert_eq!(lines.len(), 1);
    assert!(lines[0].contains("in line 2"));
}

#[test]
fn empty_source_produces_no_output() {
    assert_eq!(run(""), Vec::<String>::new());
}

#[test]
fn runtime_error_keeps_earlier_output() {
    let lines = run("print 1; print missing;");
    assert_eq!(lines.len(), 2);
    assert_eq!(lines[0], "1".to_string());
    assert!(lines[1].contains("Undefined variable at missing"));
}

#[test]
fn larger_and_smaller_numbers_render_plainly() {
    assert_eq!(run("print 10000;"), vec!["10000".to_string()]);
    assert_eq!(run("print 1000000;"), vec!["1000000".to_string()]);
    assert_eq!(run("print 0.0001;"), vec!["0.0001".to_string()]);
    assert_eq!(run("print 123456789;"), vec!["123456789".to_string()]);
}

#[test]
fn inexact_values_render_with_full_precision() {
    // The renderer shows all seventeen significant digits of an inexact
    // value, where the host's shortest-round-trip rendering would print
    // "0.1"; this pins the divergence rather than hiding it.
    assert_eq!(run("print 0.1;"), vec!["0.10000000000000001".to_string()]);
}

#[test]
fn huge_values_fall_back_to_scientific_notation() {
    // Past seventeen digits of magnitude the renderer switches to
    // scientific notation, where the host would print the plain digits.
    assert_eq!(
        run("print 100000000000000000000;"),
        vec!["1.0E+20".to_string()]
    );
}

#[test]
fn calling_an_empty_function_yields_nil() {
    assert_eq!(run("fun f() {} print f();"), vec!["Nil".to_string()]);
}

#[test]
fn constructing_with_a_trivial_initializer_succeeds() {
    let src = "
        class C { init() {} }
        var c = C();
        print \"made\";
    ";
    assert_eq!(run(src), vec!["made".to_string()]);
}

#[test]
fn number_lexemes_are_maximal() {
    // "1." must lex as the number 1 followed by a dot: the dot is only
    // consumed with a digit on each side.
    let lines = run("print 12.5;");
    assert_eq!(lines, vec!["12.5".to_string()]);
    let lines = run("var x = 1; print x.y;");
    assert_eq!(lines.len(), 1);
    assert!(lines[0].contains("Only instances have properties"));
}
