use llm_pipe::expr::Expr;
use llm_pipe::parse::parse_expr;
use llm_pipe::render::canonical;
use llm_pipe::render::write_canonical;

fn spell(text: &str) -> Vec<char> {
    text.chars().collect()
}

fn shown(expr: &Expr) -> String {
    canonical(expr).into_iter().collect()
}

fn word(text: &str) -> Box<Expr> {
    Box::new(Expr::Text(spell(text)))
}

fn samples() -> Vec<Expr> {
    let contains_ok = Expr::Contains(Box::new(Expr::Input), word("OK"));
    let is_fine = Expr::Equals(Box::new(Expr::Input), word("fine"));
    vec![
        Expr::Input,
        Expr::Text(spell("")),
        Expr::Text(spell("it's")),
        Expr::Bool(true),
        Expr::Bool(false),
        contains_ok.clone(),
        is_fine.clone(),
        Expr::Not(Box::new(contains_ok.clone())),
        Expr::And(Box::new(contains_ok.clone()), Box::new(Expr::Not(Box::new(is_fine.clone())))),
        Expr::Or(Box::new(Expr::Bool(false)), Box::new(contains_ok.clone())),
        Expr::Or(
            Box::new(Expr::And(Box::new(Expr::Bool(true)), Box::new(is_fine.clone()))),
            Box::new(Expr::And(Box::new(contains_ok), Box::new(Expr::Bool(false)))),
        ),
        Expr::Contains(Box::new(Expr::Bool(true)), Box::new(is_fine)),
    ]
}

#[test]
fn canonical_text_of_each_form() {
    assert_eq!(shown(&Expr::Input), "$");
    assert_eq!(shown(&Expr::Text(spell("a b"))), "\"a b\"");
    assert_eq!(shown(&Expr::Bool(true)), "true");
    assert_eq!(shown(&Expr::Bool(false)), "false");
    assert_eq!(
        shown(&Expr::Contains(Box::new(Expr::Input), word("OK"))),
        "$contains($,\"OK\")"
    );
    assert_eq!(shown(&Expr::Equals(Box::new(Expr::Input), word("x"))), "($)=(\"x\")");
    assert_eq!(shown(&Expr::Not(Box::new(Expr::Bool(true)))), "$not(true)");
    assert_eq!(
        shown(&Expr::And(Box::new(Expr::Bool(true)), Box::new(Expr::Bool(false)))),
        "(true)and(false)"
    );
    assert_eq!(
        shown(&Expr::Or(Box::new(Expr::Bool(true)), Box::new(Expr::Bool(false)))),
        "(true)or(false)"
    );
}

#[test]
fn canonical_text_reads_back_as_the_expression() {
    for expr in samples() {
        assert_eq!(parse_expr(&canonical(&expr)), Ok(expr));
    }
}

#[test]
fn canonical_text_is_written_after_what_is_there() {
    let mut out = spell("pass: ");
    write_canonical(&Expr::Not(Box::new(Expr::Input)), &mut out);
    assert_eq!(out, spell("pass: $not($)"));
}
