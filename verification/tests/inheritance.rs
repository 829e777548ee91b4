use rlox::run_string;

fn execute(code: &str) -> Vec<String> {
    run_string(code.to_string())
        .split("\n")
        .filter(|s| !s.is_empty())
        .map(|s| s.trim().to_string())
        .collect()
}

#[test]
fn expects_superclass_name_after_less_token() {
    let output = execute("class Child < {}");
    assert!(output[0].contains("Expected superclass name"));
}

#[test]
fn can_call_superclass_method() {
    let output = execute(
        r#"
        class Parent {
            getAnswer() {
                return 42;
            }
        }

        class Child < Parent {}

        print Child().getAnswer();
    "#,
    );

    assert_eq!(output[0], "42");
}

#[test]
fn overriding_methods() {
    let output = execute(
        r#"
        class Parent {
            getValue() {
                return 1;
            }
        }

        class Child {
            getValue() {
                return 2;
            }
        }

        print Child().getValue();
    "#,
    );

    assert_eq!(output[0], "2");
}

#[test]
fn using_super() {
    let output = execute(
        r#"
        class Parent {
            getValue() {
                return 1;
            }
        }

        class Child < Parent {
            getValue() {
                return super.getValue() + 2;
            }
        }

        print Child().getValue();
    "#,
    );

    assert_eq!(output[0], "3");
}

#[test]
fn referencing_super_without_access_fails() {
    let output = execute(
        r#"
        class Something {
            getValue() {
                return super;
            }
        }
    "#,
    );

    assert!(output[0].contains("Expect '.' after 'super'."));
}

#[test]
fn using_super_outside_of_method_fails() {
    let output = execute("super.doSomething();");

    assert_eq!(output.len(), 1);
    assert!(output[0].ends_with("UnexpectedTokenError: Cannot use `super` outside of a method."));
}

#[test]
fn using_super_without_superclass_fails() {
    let output = execute(
        r#"
        class Something {
            getValue() {
                return super.getValue();
            }
        }
    "#,
    );

    assert_eq!(output.len(), 1);
    assert!(output[0].ends_with("UnexpectedTokenError: Cannot use `super` without a superclass."));
}

#[test]
fn super_call_on_one_line() {
    let output = execute(
        "class A{m(){return 1;}} class B<A{m(){return super.m()+2;}} print B().m();",
    );

    assert_eq!(output, vec!["3"]);
}

#[test]
fn super_starts_at_the_superclass_of_the_class_it_stands_in() {
    let output = execute(
        r#"
        class A {
            name() {
                return "A";
            }
        }

        class B < A {
            name() {
                return "B";
            }

            parent() {
                return super.name();
            }
        }

        class C < B {
            name() {
                return "C";
            }
        }

        print C().parent();
    "#,
    );

    assert_eq!(output[0], "A");
}

#[test]
fn superclass_must_be_a_class() {
    let output = execute("var NotAClass = 1; class Child < NotAClass {}");

    assert_eq!(output.len(), 1);
    assert!(output[0].ends_with("Superclass must be a class."));
}

#[test]
fn inherited_initializer_runs() {
    let output = execute(
        r#"
        class Parent {
            init() {
                this.answer = 42;
            }
        }

        class Child < Parent {}

        print Child().answer;
    "#,
    );

    assert_eq!(output[0], "42");
}

#[test]
fn inherited_initializer_takes_its_arguments() {
    let output = execute(
        r#"
        class Parent {
            init(answer) {
                this.answer = answer;
            }
        }

        class Child < Parent {}

        print Child(42).answer;
        print Child().answer;
    "#,
    );

    assert_eq!(output, vec!["[line 11] Expected 1 arguments but got 0."]);
    assert_eq!(
        execute("class P { init(a) { this.a = a; } } class C < P {} print C(7).a;"),
        vec!["7"]
    );
}
