use llm_pipe::expr::contains;
use llm_pipe::expr::same_text;
use llm_pipe::expr::stands_at;
use llm_pipe::expr::EvaluationError;
use llm_pipe::expr::Expr;
use llm_pipe::parse::parse_expr;
use llm_pipe::parse::ExpressionError;
use llm_pipe::parse::MAX_DEPTH;
use llm_pipe::pass::chars_of;
use llm_pipe::pass::PassExpression;

fn letters(text: &str) -> Vec<char> {
    text.chars().collect()
}

fn parsed(source: &str) -> Result<Expr, ExpressionError> {
    parse_expr(&letters(source))
}

fn says(source: &str, input: &str) -> Result<bool, EvaluationError> {
    PassExpression::compile(source).unwrap().evaluate(input)
}

fn literal(text: &str) -> Box<Expr> {
    Box::new(Expr::Text(letters(text)))
}

#[test]
fn contains_ok_passes_and_fails() {
    let expression = PassExpression::compile("$contains($, \"OK\")").unwrap();
    assert_eq!(expression.evaluate("Result: OK"), Ok(true));
    assert_eq!(expression.evaluate("Result: FAIL"), Ok(false));
}

#[test]
fn string_expression_is_not_boolean() {
    assert_eq!(says("\"yes\"", "anything"), Err(EvaluationError::NotBoolean));
    assert_eq!(says("'yes'", ""), Err(EvaluationError::NotBoolean));
    assert_eq!(says("$", "true"), Err(EvaluationError::NotBoolean));
}

#[test]
fn operands_of_the_wrong_kind_are_errors() {
    assert_eq!(says("$contains(true, 'a')", "a"), Err(EvaluationError::NotText));
    assert_eq!(says("$contains($, false)", "a"), Err(EvaluationError::NotText));
    assert_eq!(says("true = $", "a"), Err(EvaluationError::NotText));
    assert_eq!(says("$ = ($ = $)", "a"), Err(EvaluationError::NotText));
    assert_eq!(says("$not($)", "a"), Err(EvaluationError::NotBoolean));
    assert_eq!(says("true and 'x'", "a"), Err(EvaluationError::NotBoolean));
    assert_eq!(says("'x' or true", "a"), Err(EvaluationError::NotBoolean));
    assert_eq!(says("$ and $contains(true, $)", "a"), Err(EvaluationError::NotBoolean));
    assert_eq!(says("$contains(true, $) and $", "a"), Err(EvaluationError::NotText));
}

#[test]
fn literals_and_connectives() {
    assert_eq!(says("true", ""), Ok(true));
    assert_eq!(says("false", ""), Ok(false));
    assert_eq!(says("$not(true)", ""), Ok(false));
    assert_eq!(says("$not(false)", ""), Ok(true));
    assert_eq!(says("true and false", ""), Ok(false));
    assert_eq!(says("true and true", ""), Ok(true));
    assert_eq!(says("false or true", ""), Ok(true));
    assert_eq!(says("false or false", ""), Ok(false));
    assert_eq!(says("true or false and false", ""), Ok(true));
    assert_eq!(says("(true or false) and false", ""), Ok(false));
    assert_eq!(says("false and false or true", ""), Ok(true));
}

#[test]
fn equality_compares_texts() {
    assert_eq!(says("$ = 'yes'", "yes"), Ok(true));
    assert_eq!(says("$ = 'yes'", "yes "), Ok(false));
    assert_eq!(says("'' = $", ""), Ok(true));
    assert_eq!(says("\"a\" = 'a'", "x"), Ok(true));
    assert_eq!(says("$not($ = 'no')", "yes"), Ok(true));
}

#[test]
fn contains_finds_a_text_anywhere() {
    assert_eq!(says("$contains($, '')", ""), Ok(true));
    assert_eq!(says("$contains($, 'abc')", "abc"), Ok(true));
    assert_eq!(says("$contains($, 'abc')", "xxabc"), Ok(true));
    assert_eq!(says("$contains($, 'abc')", "abcxx"), Ok(true));
    assert_eq!(says("$contains($, 'abc')", "ab"), Ok(false));
    assert_eq!(says("$contains($, 'abc')", "abxabxab"), Ok(false));
    assert_eq!(says("$contains('haystack', $)", "st"), Ok(true));
    assert_eq!(says("$contains($, 'caf\u{e9}')", "un caf\u{e9} noir"), Ok(true));
    assert_eq!(
        says("$contains($, 'OK') and $not($contains($, 'ERROR'))", "OK, no problem"),
        Ok(true)
    );
    assert_eq!(
        says("$contains($, 'OK') and $not($contains($, 'ERROR'))", "OK but ERROR"),
        Ok(false)
    );
}

#[test]
fn substring_search_on_characters() {
    let text = letters("Result: OK");
    assert!(contains(&text, &letters("OK")));
    assert!(contains(&text, &letters("Result")));
    assert!(contains(&text, &letters("")));
    assert!(!contains(&text, &letters("FAIL")));
    assert!(!contains(&letters(""), &letters("x")));
    assert!(stands_at(&text, &letters("OK"), 8));
    assert!(!stands_at(&text, &letters("OK"), 7));
    assert!(stands_at(&text, &letters(""), 10));
    assert!(same_text(&text, &letters("Result: OK")));
    assert!(!same_text(&text, &letters("Result: ok")));
    assert!(!same_text(&text, &letters("Result")));
}

#[test]
fn characters_of_a_string() {
    assert_eq!(chars_of(""), Vec::<char>::new());
    assert_eq!(chars_of("a\u{e9}\u{1f600}"), vec!['a', '\u{e9}', '\u{1f600}']);
}

#[test]
fn parser_builds_the_expression() {
    assert_eq!(parsed("$"), Ok(Expr::Input));
    assert_eq!(parsed("  $\t\r\n"), Ok(Expr::Input));
    assert_eq!(parsed("\"a b\""), Ok(Expr::Text(letters("a b"))));
    assert_eq!(parsed("'it\"s'"), Ok(Expr::Text(letters("it\"s"))));
    assert_eq!(parsed("true"), Ok(Expr::Bool(true)));
    assert_eq!(parsed("false"), Ok(Expr::Bool(false)));
    assert_eq!(
        parsed("$contains($, \"OK\")"),
        Ok(Expr::Contains(Box::new(Expr::Input), literal("OK")))
    );
    assert_eq!(
        parsed(" $contains ( $ , 'OK' ) "),
        Ok(Expr::Contains(Box::new(Expr::Input), literal("OK")))
    );
    assert_eq!(parsed("$not(true)"), Ok(Expr::Not(Box::new(Expr::Bool(true)))));
    assert_eq!(parsed("($)"), Ok(Expr::Input));
    assert_eq!(
        parsed("$='a'"),
        Ok(Expr::Equals(Box::new(Expr::Input), literal("a")))
    );
    assert_eq!(
        parsed("true and false or true"),
        Ok(Expr::Or(
            Box::new(Expr::And(Box::new(Expr::Bool(true)), Box::new(Expr::Bool(false)))),
            Box::new(Expr::Bool(true))
        ))
    );
    assert_eq!(
        parsed("true or false and true"),
        Ok(Expr::Or(
            Box::new(Expr::Bool(true)),
            Box::new(Expr::And(Box::new(Expr::Bool(false)), Box::new(Expr::Bool(true))))
        ))
    );
    assert_eq!(
        parsed("true and false and true"),
        Ok(Expr::And(
            Box::new(Expr::Bool(true)),
            Box::new(Expr::And(Box::new(Expr::Bool(false)), Box::new(Expr::Bool(true))))
        ))
    );
}

#[test]
fn parser_says_where_the_text_is_no_expression() {
    assert_eq!(parsed(""), Err(ExpressionError::Unexpected(0)));
    assert_eq!(parsed("   "), Err(ExpressionError::Unexpected(3)));
    assert_eq!(parsed("\"open"), Err(ExpressionError::Unexpected(5)));
    assert_eq!(parsed("'open\""), Err(ExpressionError::Unexpected(6)));
    assert_eq!(parsed("$ $"), Err(ExpressionError::Unexpected(2)));
    assert_eq!(parsed("yes"), Err(ExpressionError::Unexpected(0)));
    assert_eq!(parsed("truely"), Err(ExpressionError::Unexpected(0)));
    assert_eq!(parsed("  True"), Err(ExpressionError::Unexpected(2)));
    assert_eq!(parsed("$length($)"), Err(ExpressionError::Unexpected(0)));
    assert_eq!(parsed("$contains $"), Err(ExpressionError::Unexpected(10)));
    assert_eq!(parsed("$contains($)"), Err(ExpressionError::Unexpected(11)));
    assert_eq!(parsed("$contains($, 'a'"), Err(ExpressionError::Unexpected(16)));
    assert_eq!(parsed("$not(true"), Err(ExpressionError::Unexpected(9)));
    assert_eq!(parsed("$not(true, false)"), Err(ExpressionError::Unexpected(9)));
    assert_eq!(parsed("(true"), Err(ExpressionError::Unexpected(5)));
    assert_eq!(parsed("true)"), Err(ExpressionError::Unexpected(4)));
    assert_eq!(parsed("true and"), Err(ExpressionError::Unexpected(8)));
    assert_eq!(parsed("true or or"), Err(ExpressionError::Unexpected(8)));
    assert_eq!(parsed("true andfalse"), Err(ExpressionError::Unexpected(5)));
    assert_eq!(parsed("$ ="), Err(ExpressionError::Unexpected(3)));
    assert_eq!(parsed("$ = $ = $"), Err(ExpressionError::Unexpected(6)));
    assert_eq!(parsed("1"), Err(ExpressionError::Unexpected(0)));
    assert_eq!(
        PassExpression::compile("$contains($, OK)").err(),
        Some(ExpressionError::Unexpected(13))
    );
}

#[test]
fn parser_bounds_the_nesting() {
    let open = "(".repeat(MAX_DEPTH);
    let close = ")".repeat(MAX_DEPTH);
    assert_eq!(parsed(&format!("{}true{}", open, close)), Ok(Expr::Bool(true)));
    assert_eq!(
        parsed(&format!("({}true{})", open, close)),
        Err(ExpressionError::TooDeep(MAX_DEPTH))
    );
    let chain = vec!["true"; MAX_DEPTH + 1].join(" and ");
    assert!(parsed(&chain).is_ok());
    let long = vec!["true"; MAX_DEPTH + 2].join(" and ");
    assert_eq!(
        parsed(&long),
        Err(ExpressionError::TooDeep(9 * MAX_DEPTH + 5))
    );
    let nots = "$not(".repeat(MAX_DEPTH + 1);
    assert_eq!(
        parsed(&format!("{}true{}", nots, ")".repeat(MAX_DEPTH + 1))),
        Err(ExpressionError::TooDeep(5 * MAX_DEPTH))
    );
}

#[test]
fn compiled_expression_can_be_copied_and_compared() {
    let first = PassExpression::compile("$contains($, 'OK') or $ = 'fine'").unwrap();
    let second = first.clone();
    assert_eq!(first, second);
    assert_eq!(second.evaluate("fine"), Ok(true));
    assert_eq!(second.evaluate("bad"), Ok(false));
    let tree = parsed("$not($contains('a', $)) and (true or false)").unwrap();
    assert_eq!(tree.clone(), tree);
}
