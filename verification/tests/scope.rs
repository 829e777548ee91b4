use rlox::run_string;

fn execute(code: &str) -> Vec<String> {
    run_string(code.to_string())
        .split("\n")
        .filter(|s| !s.is_empty())
        .map(|s| s.trim().to_string())
        .collect()
}

#[test]
fn closure_environment_mutation() {
    let output = execute(
        r#"
        var a = "global";
        {
            fun showA() {
                print a;
            }

            showA();
            var a = "block";
            showA();
        }
    "#,
    );

    assert_eq!(output[0], "global");
    assert_eq!(
        output[1],
        "global",
        "Assignments to enclosed variable shouldn't change function closure environment"
    );
}

#[test]
fn shadowing_in_a_block_ends_with_the_block() {
    let output = execute(
        r#"
        var a = "outer";
        {
            var a = "inner";
            print a;
            a = "changed";
            print a;
        }
        print a;
    "#,
    );

    assert_eq!(output, vec!["inner", "changed", "outer"]);
}

#[test]
fn assignment_reaches_the_enclosing_scope() {
    let output = execute(
        r#"
        var a = 1;
        {
            {
                a = 2;
            }
        }
        print a;
    "#,
    );

    assert_eq!(output, vec!["2"]);
}

#[test]
fn assigning_to_an_undeclared_name_is_an_error() {
    let output = execute("missing = 1;");

    assert_eq!(output, vec!["[line 1] Undefined variable `missing`."]);
}

#[test]
fn reading_an_undeclared_name_is_an_error() {
    let output = execute("print 1;\nprint missing;");

    assert_eq!(output, vec!["[line 2] Undefined variable `missing`."]);
}
