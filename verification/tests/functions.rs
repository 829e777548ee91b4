use rlox::run_string;

fn execute(code: &str) -> Vec<String> {
    run_string(code.to_string())
        .split("\n")
        .filter(|s| !s.is_empty())
        .map(|s| s.trim().to_string())
        .collect()
}

#[test]
fn function_parameters() {
    let output = execute(
        r#"
      fun sum(a, b) {
          return a + b;
      }

      print sum(1, 2);
    "#,
    );

    assert_eq!(output[0], "3");
}

#[test]
fn return_on_top_level() {
    let output = execute("return 42;");

    assert_eq!(output.len(), 1);
    assert!(output[0].ends_with("UnexpectedTokenError: Cannot use `return` at the top level."));
}

#[test]
fn functions_compared_by_identity() {
    let output = execute(
        r#"
      fun sum(a, b) {
          return a + b;
      }

      var b = sum;
      print b == sum;
    "#,
    );

    assert_eq!(output[0], "true");
}

#[test]
fn wrong_arity_names_expected_and_actual() {
    let output = execute(
        r#"
      fun f(a, b) {
          return a + b;
      }

      print f(1);
    "#,
    );

    assert_eq!(output.len(), 1);
    assert_eq!(output[0], "[line 6] Expected 2 arguments but got 1.");
}

#[test]
fn arguments_are_evaluated_before_the_callee_is_checked() {
    let output = execute(
        r#"
      fun shout() {
          print "evaluated";
          return 1;
      }

      var notCallable = 3;
      notCallable(shout());
    "#,
    );

    assert_eq!(output.len(), 1);
    assert!(output[0].ends_with("Can only call functions and classes."));
}

#[test]
fn a_function_without_return_yields_nil() {
    let output = execute("fun f() {} print f();");

    assert_eq!(output[0], "nil");
}

#[test]
fn printing_a_function() {
    let output = execute("fun f() {} print f; print clock;");

    assert_eq!(output, vec!["func", "func"]);
}

#[test]
fn recursion() {
    let output = execute(
        r#"
      fun fib(n) {
          if (n < 2) return n;
          return fib(n - 1) + fib(n - 2);
      }

      print fib(15);
    "#,
    );

    assert_eq!(output[0], "610");
}

#[test]
fn runaway_recursion_is_an_error() {
    let output = execute(
        r#"
      fun forever(n) {
          return forever(n + 1);
      }

      print forever(0);
    "#,
    );

    assert_eq!(output.len(), 1);
    assert!(output[0].ends_with("Stack overflow."));
}

#[test]
fn return_leaves_a_loop() {
    let output = execute(
        r#"
      fun firstAbove(limit) {
          var i = 0;
          while (true) {
              if (i > limit) return i;
              i = i + 1;
          }
      }

      print firstAbove(3);
    "#,
    );

    assert_eq!(output[0], "4");
}

#[test]
fn the_clock_yields_a_number() {
    let output = execute("print clock() > 0; print clock() - clock() <= 0;");

    assert_eq!(output, vec!["true", "true"]);
}
