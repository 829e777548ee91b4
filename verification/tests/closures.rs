use rlox::run_string;

fn execute(code: &str) -> Vec<String> {
    run_string(code.to_string())
        .split("\n")
        .filter(|s| !s.is_empty())
        .map(|s| s.trim().to_string())
        .collect()
}

#[test]
fn simple_closure() {
    let output = execute(
        r#"
        fun giveMeAClosure() {
            var answer = 42;

            fun closure() {
                return answer;
            }

            return closure;
        }

        var gotClosure = giveMeAClosure();
        print gotClosure();
    "#,
    );

    assert_eq!(output[0], "42");
}

#[test]
fn closures_share_the_variable_they_capture() {
    let output = execute(
        r#"
        fun makeCounter() {
            var count = 0;

            fun increment() {
                count = count + 1;
                return count;
            }

            return increment;
        }

        var first = makeCounter();
        var second = makeCounter();
        print first();
        print first();
        print second();
    "#,
    );

    assert_eq!(output, vec!["1", "2", "1"]);
}
