use tuitools::calc::balance::validate_parens;
use tuitools::calc::error::CalcError;
use tuitools::calc::expr::{parse_expr, parse_expression, Expr, Operator};
use tuitools::calc::format::{format_number, format_with_thousands, NumberText};

fn eval(expr: &Expr) -> Result<f64, CalcError> {
    match expr {
        Expr::Number(text) => text.parse::<f64>().map_err(|_| CalcError::InvalidNumber),
        Expr::Negate(inner) => Ok(-eval(inner)?),
        Expr::Binary(op, left, right) => {
            let left = eval(left)?;
            let right = eval(right)?;
            match op {
                Operator::Add => Ok(left + right),
                Operator::Subtract => Ok(left - right),
                Operator::Multiply => Ok(left * right),
                Operator::Divide => {
                    if right.abs() < f64::EPSILON {
                        Err(CalcError::DivisionByZero)
                    } else {
                        Ok(left / right)
                    }
                }
                Operator::Power => {
                    let result = left.powf(right);
                    if result.is_finite() {
                        Ok(result)
                    } else {
                        Err(CalcError::InvalidResult)
                    }
                }
            }
        }
        Expr::Malformed => Err(CalcError::InvalidExpression),
    }
}

fn parse_and_eval(text: &str) -> Result<f64, CalcError> {
    let value = eval(&parse_expression(text)?)?;
    if value.is_finite() {
        Ok(value)
    } else {
        Err(CalcError::InvalidResult)
    }
}

fn number_text(n: f64) -> NumberText {
    NumberText {
        whole: n.fract().abs() < f64::EPSILON,
        rounded: format!("{n:.0}"),
        fixed: format!("{n:.10}"),
    }
}

fn number(text: &str) -> Box<Expr> {
    Box::new(Expr::Number(text.to_string()))
}

#[test]
fn test_format_with_thousands() {
    assert_eq!(format_with_thousands(0), "0");
    assert_eq!(format_with_thousands(123), "123");
    assert_eq!(format_with_thousands(1234), "1'234");
    assert_eq!(format_with_thousands(1234567), "1'234'567");
    assert_eq!(format_with_thousands(-1234), "-1'234");
    assert_eq!(format_with_thousands(i64::MAX), "9'223'372'036'854'775'807");
}

#[test]
fn test_format_number() {
    assert_eq!(format_number(&number_text(0.0)), "0");
    assert_eq!(format_number(&number_text(1000.0)), "1'000");
    assert_eq!(format_number(&number_text(1234.5)), "1'234.5");
    assert_eq!(format_number(&number_text(1000000.123)), "1'000'000.123");
    assert_eq!(format_number(&number_text(-1234.0)), "-1'234");
}

#[test]
fn test_validate_parens() {
    assert!(validate_parens(""));
    assert!(validate_parens("()"));
    assert!(validate_parens("(())"));
    assert!(validate_parens("(()())"));
    assert!(validate_parens("2+(3*4)"));
    assert!(!validate_parens("("));
    assert!(!validate_parens(")"));
    assert!(!validate_parens(")("));
    assert!(!validate_parens("(()"));
}

#[test]
fn test_basic_arithmetic() {
    assert_eq!(parse_and_eval("2+3").unwrap(), 5.0);
    assert_eq!(parse_and_eval("10-3").unwrap(), 7.0);
    assert_eq!(parse_and_eval("4*5").unwrap(), 20.0);
    assert_eq!(parse_and_eval("20/4").unwrap(), 5.0);
}

#[test]
fn test_precedence() {
    assert_eq!(parse_and_eval("2+3*4").unwrap(), 14.0);
    assert_eq!(parse_and_eval("10-2*3").unwrap(), 4.0);
    assert_eq!(parse_and_eval("20/4+1").unwrap(), 6.0);
}

#[test]
fn test_parentheses() {
    assert_eq!(parse_and_eval("(2+3)*4").unwrap(), 20.0);
    assert_eq!(parse_and_eval("2*(3+4)").unwrap(), 14.0);
    assert_eq!(parse_and_eval("((5))").unwrap(), 5.0);
}

#[test]
fn test_power() {
    assert_eq!(parse_and_eval("2^3").unwrap(), 8.0);
    assert_eq!(parse_and_eval("2^3^2").unwrap(), 512.0); // right-associative
}

#[test]
fn test_unary_minus() {
    assert_eq!(parse_and_eval("-5").unwrap(), -5.0);
    assert_eq!(parse_and_eval("-(3+2)").unwrap(), -5.0);
    assert_eq!(parse_and_eval("-(-5)").unwrap(), 5.0);
    assert_eq!(parse_and_eval("3+-2").unwrap(), 1.0);
}

#[test]
fn test_thousands_separator() {
    assert_eq!(parse_and_eval("1'000").unwrap(), 1000.0);
    assert_eq!(parse_and_eval("1'000'000+1").unwrap(), 1000001.0);
}

#[test]
fn test_errors() {
    assert!(parse_and_eval("").is_err());
    assert!(parse_and_eval("(").is_err());
    assert!(parse_and_eval("1/0").is_err());
    assert!(parse_and_eval("abc").is_err());
}

#[test]
fn error_kinds_are_told_apart() {
    assert_eq!(parse_and_eval(""), Err(CalcError::EmptyExpression));
    assert_eq!(parse_and_eval("  ' "), Err(CalcError::EmptyExpression));
    assert_eq!(parse_and_eval("("), Err(CalcError::UnmatchedParentheses));
    assert_eq!(parse_and_eval(")("), Err(CalcError::UnmatchedParentheses));
    assert_eq!(parse_and_eval("1+"), Err(CalcError::InvalidExpression));
    assert_eq!(parse_and_eval("*2"), Err(CalcError::InvalidExpression));
    assert_eq!(parse_and_eval("2^"), Err(CalcError::InvalidExpression));
    assert_eq!(parse_and_eval("1/0"), Err(CalcError::DivisionByZero));
    assert_eq!(parse_and_eval("10^400"), Err(CalcError::InvalidResult));
    assert_eq!(parse_and_eval("1e308*10"), Err(CalcError::InvalidResult));
    assert_eq!(parse_and_eval("inf"), Err(CalcError::InvalidResult));
    assert_eq!(parse_and_eval("NaN"), Err(CalcError::InvalidResult));
    assert_eq!(parse_and_eval("abc"), Err(CalcError::InvalidNumber));
    assert_eq!(parse_and_eval("()"), Err(CalcError::InvalidNumber));
}

#[test]
fn error_messages() {
    assert_eq!(CalcError::EmptyExpression.message(), "Empty expression");
    assert_eq!(CalcError::UnmatchedParentheses.message(), "Unmatched parentheses");
    assert_eq!(CalcError::InvalidExpression.message(), "Invalid expression");
    assert_eq!(CalcError::DivisionByZero.message(), "Division by zero");
    assert_eq!(CalcError::InvalidResult.message(), "Invalid result");
    assert_eq!(CalcError::InvalidNumber.message(), "Invalid number");
}

#[test]
fn the_left_operand_fails_first() {
    assert_eq!(parse_and_eval("(1/0)*(2+)"), Err(CalcError::DivisionByZero));
    assert_eq!(parse_and_eval("(2+)*(1/0)"), Err(CalcError::InvalidExpression));
}

#[test]
fn trees_show_precedence_and_associativity() {
    assert_eq!(
        parse_expr("10-2*3"),
        Expr::Binary(
            Operator::Subtract,
            number("10"),
            Box::new(Expr::Binary(Operator::Multiply, number("2"), number("3"))),
        )
    );
    assert_eq!(
        parse_expr("8-3-2"),
        Expr::Binary(
            Operator::Subtract,
            Box::new(Expr::Binary(Operator::Subtract, number("8"), number("3"))),
            number("2"),
        )
    );
    assert_eq!(
        parse_expr("2^3^2"),
        Expr::Binary(
            Operator::Power,
            number("2"),
            Box::new(Expr::Binary(Operator::Power, number("3"), number("2"))),
        )
    );
    assert_eq!(parse_and_eval("8-3-2").unwrap(), 3.0);
    assert_eq!(parse_and_eval("16/4/2").unwrap(), 2.0);
}

#[test]
fn signs_after_operators_are_unary() {
    assert_eq!(
        parse_expr("3+-2"),
        Expr::Binary(Operator::Add, number("3"), Box::new(Expr::Negate(number("2"))))
    );
    assert_eq!(
        parse_expr("3*-2"),
        Expr::Binary(Operator::Multiply, number("3"), Box::new(Expr::Negate(number("2"))))
    );
    assert_eq!(parse_expr("-"), Expr::Negate(number("")));
    assert_eq!(parse_expr("+5"), Expr::Malformed);
    assert_eq!(parse_expr("+"), Expr::Malformed);
    assert_eq!(parse_expr("-+5"), Expr::Negate(Box::new(Expr::Malformed)));
    assert_eq!(
        parse_expr("3*+2"),
        Expr::Binary(Operator::Multiply, number("3"), Box::new(Expr::Malformed))
    );
    assert_eq!(
        parse_expr("3++2"),
        Expr::Binary(Operator::Add, number("3"), Box::new(Expr::Malformed))
    );
    assert_eq!(parse_and_eval("+5"), Err(CalcError::InvalidExpression));
    assert_eq!(parse_and_eval("3*+2"), Err(CalcError::InvalidExpression));
    assert_eq!(parse_and_eval("3++2"), Err(CalcError::InvalidExpression));
    assert_eq!(parse_and_eval("(+5)"), Err(CalcError::InvalidExpression));
    assert_eq!(parse_and_eval("2*-3").unwrap(), -6.0);
    assert_eq!(parse_and_eval("--5").unwrap(), 5.0);
    assert_eq!(parse_and_eval("(-2)^2").unwrap(), 4.0);
}

#[test]
fn parentheses_unwrap_one_layer_at_a_time() {
    assert_eq!(parse_expr("((5))"), Expr::Number("5".to_string()));
    assert_eq!(parse_expr("(1)(2)"), Expr::Number("1)(2".to_string()));
    assert_eq!(
        parse_expr("(2+3"),
        Expr::Binary(Operator::Add, number("(2"), number("3"))
    );
    assert_eq!(parse_expr("(2"), Expr::Number("(2".to_string()));
}

#[test]
fn malformed_operator_placement() {
    assert_eq!(parse_expr("1+"), Expr::Malformed);
    assert_eq!(parse_expr("*2"), Expr::Malformed);
    assert_eq!(parse_expr("^"), Expr::Malformed);
    assert_eq!(
        parse_expr("1+*2"),
        Expr::Binary(Operator::Add, number("1"), Box::new(Expr::Malformed))
    );
}

#[test]
fn parse_expression_turns_down() {
    assert_eq!(parse_expression(""), Err(CalcError::EmptyExpression));
    assert_eq!(parse_expression("' '"), Err(CalcError::EmptyExpression));
    assert_eq!(parse_expression("(()"), Err(CalcError::UnmatchedParentheses));
    assert_eq!(
        parse_expression(" 1'000 + 2 "),
        Ok(Expr::Binary(Operator::Add, number("1000"), number("2")))
    );
}

#[test]
fn format_integer_extremes() {
    assert_eq!(format_with_thousands(i64::MIN), "-9'223'372'036'854'775'808");
    assert_eq!(format_with_thousands(-1), "-1");
    assert_eq!(format_with_thousands(999), "999");
    assert_eq!(format_with_thousands(1000), "1'000");
    assert_eq!(format_with_thousands(-999999), "-999'999");
    assert_eq!(format_with_thousands(100000), "100'000");
}

#[test]
fn format_integer_round_trip() {
    for n in [0i64, 7, -7, 1234567, -1234567, i64::MAX, i64::MIN, 1000, -1000000] {
        let shown = format_with_thousands(n);
        let plain: String = shown.chars().filter(|c| *c != '\'').collect();
        assert_eq!(plain.parse::<i64>().unwrap(), n);
    }
}

#[test]
fn format_number_fractions() {
    assert_eq!(format_number(&number_text(0.5)), "0.5");
    assert_eq!(format_number(&number_text(-0.5)), "-0.5");
    assert_eq!(format_number(&number_text(-1234.25)), "-1'234.25");
    assert_eq!(format_number(&number_text(1234567.875)), "1'234'567.875");
    assert_eq!(format_number(&number_text(0.1 + 0.2)), "0.3");
    assert_eq!(format_number(&number_text(1.0 / 3.0)), "0.3333333333");
    assert_eq!(format_number(&number_text(-0.0)), "0");
    assert_eq!(format_number(&number_text(-1e-11)), "-0");
    assert_eq!(format_number(&number_text(-1e-20)), "0");
    assert_eq!(format_number(&number_text(1234.00000000001)), "1'234");
    assert_eq!(format_number(&number_text(-1234567.00000000001)), "-1'234'567");
}

#[test]
fn format_number_beyond_64_bits() {
    assert_eq!(format_number(&number_text(1e20)), "100'000'000'000'000'000'000");
    assert_eq!(format_number(&number_text(-1e20)), "-100'000'000'000'000'000'000");
    assert_eq!(
        format_number(&number_text(1e30)),
        "1'000'000'000'000'000'019'884'624'838'656"
    );
    assert_eq!(
        format_number(&number_text(9223372036854775808.0)),
        "9'223'372'036'854'775'808"
    );
    assert_eq!(
        format_number(&number_text(f64::MAX)).chars().filter(|c| *c == '\'').count(),
        102
    );
}

#[test]
fn number_texts_are_told_from_other_texts() {
    assert!(number_text(0.0).is_well_formed());
    assert!(number_text(-1234.5).is_well_formed());
    assert!(number_text(1e300).is_well_formed());
    assert!(number_text(-0.0).is_well_formed());
    assert!(!number_text(f64::INFINITY).is_well_formed());
    assert!(!number_text(f64::NAN).is_well_formed());
    let text = |rounded: &str, fixed: &str| NumberText {
        whole: false,
        rounded: rounded.to_string(),
        fixed: fixed.to_string(),
    };
    assert!(text("1", "1.0000000000").is_well_formed());
    assert!(!text("", "1.0000000000").is_well_formed());
    assert!(!text("-", "1.0000000000").is_well_formed());
    assert!(!text("+1", "1.0000000000").is_well_formed());
    assert!(!text("1", "1.000000000").is_well_formed());
    assert!(!text("1", "1.00000000000").is_well_formed());
    assert!(!text("1", ".0000000000").is_well_formed());
    assert!(!text("1", "-.0000000000").is_well_formed());
    assert!(!text("1", "1.00000x0000").is_well_formed());
    assert!(!text("1", "1'0.0000000000").is_well_formed());
    assert!(!text("1", "0000000000").is_well_formed());
}

#[test]
fn format_number_on_plain_text() {
    let shown = format_number(&NumberText {
        whole: false,
        rounded: "12346".to_string(),
        fixed: "12345.6700000000".to_string(),
    });
    assert_eq!(shown, "12'345.67");
    let no_fraction_left = format_number(&NumberText {
        whole: false,
        rounded: "1234".to_string(),
        fixed: "1234.0000000000".to_string(),
    });
    assert_eq!(no_fraction_left, "1'234");
    let long = format_number(&NumberText {
        whole: true,
        rounded: "-000123456789012345678901234567890".to_string(),
        fixed: "0.0000000000".to_string(),
    });
    assert_eq!(long, "-123'456'789'012'345'678'901'234'567'890");
    let zeros = format_number(&NumberText {
        whole: true,
        rounded: "-0000".to_string(),
        fixed: "0.0000000000".to_string(),
    });
    assert_eq!(zeros, "0");
    let kept = format_number(&NumberText {
        whole: false,
        rounded: "x".to_string(),
        fixed: "12a4.5000".to_string(),
    });
    assert_eq!(kept, "12a4.5");
    let whole = format_number(&NumberText {
        whole: true,
        rounded: "-12346".to_string(),
        fixed: "-12346.0000000000".to_string(),
    });
    assert_eq!(whole, "-12'346");
    let odd = format_number(&NumberText {
        whole: false,
        rounded: "inf".to_string(),
        fixed: "inf".to_string(),
    });
    assert_eq!(odd, "inf");
}
