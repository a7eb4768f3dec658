use stack_lang::definitions::Definitions;
use stack_lang::number::number;
use stack_lang::operation::OperationType;
use stack_lang::parser::{fill, keyword, register_constant, register_macro, scope, string};
use stack_lang::{ParsingError, Stack, ValueType};

fn chars(text: &str) -> Vec<char> {
    text.chars().collect()
}

fn parse(text: &str) -> Result<Vec<Stack>, ParsingError> {
    let mut stack = Vec::new();
    let mut user_definitions = Definitions::new();
    let mut line_height = 1;
    let mut line_width = 1;
    fill(
        &chars(text),
        &mut stack,
        &mut line_height,
        &mut line_width,
        &mut user_definitions,
    )?;
    Ok(stack)
}

#[test]
fn test_extract_operation() {
    let mut stack = vec![Stack::Value(ValueType::Int(3))];
    let mut user_definitions = Definitions::new();
    let mut current_index = 0;

    keyword(&chars("+"), &mut stack, &mut current_index, &mut user_definitions).unwrap();

    assert_eq!(
        vec![
            Stack::Value(ValueType::Int(3)),
            Stack::Operation(OperationType::Add)
        ],
        stack
    );

    assert_eq!(current_index, 0);
}

#[test]
#[should_panic]
fn test_extract_unknown_operation() {
    let mut stack = vec![Stack::Value(ValueType::Int(3))];
    let mut user_definitions = Definitions::new();
    let mut current_index = 0;

    keyword(
        &chars("unknown_operand"),
        &mut stack,
        &mut current_index,
        &mut user_definitions,
    )
    .unwrap();

    assert_eq!(vec![Stack::Value(ValueType::Int(3))], stack);

    assert_eq!(current_index, 15);
}

#[test]
fn test_extract_int() {
    let mut stack = vec![Stack::Value(ValueType::Int(4))];
    let mut current_index = 0;

    number(&chars("5_6_7_8_9"), &mut stack, &mut current_index).unwrap();

    assert_eq!(
        vec![
            Stack::Value(ValueType::Int(4)),
            Stack::Value(ValueType::Int(5_6_7_8_9)),
        ],
        stack
    );

    assert_eq!(current_index, 8);
}

#[test]
fn test_extract_float() {
    let mut stack = vec![Stack::Value(ValueType::Int(4))];
    let mut current_index = 0;

    number(&chars("5_6._7_8_9"), &mut stack, &mut current_index).unwrap();
    assert_eq!(
        vec![
            Stack::Value(ValueType::Int(4)),
            Stack::Decimal("56.789".to_string()),
        ],
        stack
    );
    match &stack[1] {
        Stack::Decimal(digits) => assert_eq!(digits.parse::<f64>().unwrap(), 56.789),
        other => panic!("not a decimal: {:?}", other),
    }

    assert_eq!(current_index, 9);
}

#[test]
fn test_extract_string() {
    let mut stack = vec![Stack::Value(ValueType::Int(4))];
    let mut current_index = 0;

    string(
        &chars(r#""Hello""#),
        &mut stack,
        &mut current_index,
        &mut 1,
        &mut 1,
    )
    .unwrap();

    assert_eq!(
        vec![
            Stack::Value(ValueType::Int(4)),
            Stack::Value(ValueType::Text("Hello".to_string())),
        ],
        stack
    );

    assert_eq!(current_index, 6);
}

#[test]
fn test_extract_scope() {
    let mut stack = vec![Stack::Value(ValueType::Int(4))];
    let mut user_definitions = Definitions::new();
    let mut current_index = 0;
    let mut line_height = 0;
    let mut line_width = 0;

    stack.push(Stack::Value(ValueType::Scope(
        scope(
            &chars(r#"{*}"#),
            &mut current_index,
            &mut line_width,
            &mut line_height,
            &mut user_definitions,
        )
        .unwrap(),
    )));

    assert_eq!(
        vec![
            Stack::Value(ValueType::Int(4)),
            Stack::Value(ValueType::Scope(vec![Stack::Operation(OperationType::Mul)])),
        ],
        stack
    );

    assert_eq!(current_index, 3);
}

#[test]
fn test_register_macro() {
    let mut stack = vec![
        Stack::Value(ValueType::Int(4)),
        Stack::Value(ValueType::Scope(vec![
            Stack::Value(ValueType::Int(2)),
            Stack::Operation(OperationType::Mul),
        ])),
        Stack::Value(ValueType::Text("double".to_string())),
    ];

    let mut user_definitions = Definitions::new();

    register_macro(&mut stack, &mut user_definitions).unwrap();

    assert!(user_definitions.contains_key(&"double".to_string()));

    keyword(&chars("double"), &mut stack, &mut 0, &mut user_definitions).unwrap();

    assert_eq!(
        vec![
            Stack::Value(ValueType::Int(4)),
            Stack::Value(ValueType::Int(2)),
            Stack::Operation(OperationType::Mul),
        ],
        stack
    );
}

#[test]
fn test_register_constant() {
    let mut stack = vec![
        Stack::Value(ValueType::Int(2)),
        Stack::Value(ValueType::Int(5)),
        Stack::Value(ValueType::Text("FIVE".to_string())),
    ];

    let mut user_definitions = Definitions::new();

    register_constant(&mut stack, &mut user_definitions).unwrap();

    assert!(user_definitions.contains_key(&"FIVE".to_string()));

    keyword(&chars("FIVE"), &mut stack, &mut 0, &mut user_definitions).unwrap();

    assert_eq!(
        vec![
            Stack::Value(ValueType::Int(2)),
            Stack::Value(ValueType::Int(5)),
        ],
        stack
    );
}

#[test]
fn empty_string_literal_is_empty_text() {
    let mut stack = Vec::new();
    let mut current_index = 0;
    string(&chars("\"\""), &mut stack, &mut current_index, &mut 1, &mut 1).unwrap();
    assert_eq!(vec![Stack::Value(ValueType::Text(String::new()))], stack);
    assert_eq!(current_index, 1);
}

#[test]
fn unterminated_string_is_an_extraction_error() {
    let mut stack = Vec::new();
    let mut current_index = 0;
    let error = string(&chars("\"Hello"), &mut stack, &mut current_index, &mut 1, &mut 1)
        .unwrap_err();
    assert_eq!(
        error,
        ParsingError::ExtractionError {
            what: "String".to_string(),
            reason: "Could not find end of string.".to_string(),
        }
    );
    assert!(stack.is_empty());
    assert_eq!(current_index, 0);
}

#[test]
fn either_quote_closes_a_string() {
    assert_eq!(
        parse("'it\" 7").unwrap(),
        vec![
            Stack::Value(ValueType::Text("it".to_string())),
            Stack::Value(ValueType::Int(7)),
        ]
    );
}

#[test]
fn string_with_line_feeds_moves_the_line_counter() {
    let mut stack = Vec::new();
    let mut current_index = 0;
    let mut line_height = 3;
    let mut line_width = 9;
    string(
        &chars("\"a\nb\nc\""),
        &mut stack,
        &mut current_index,
        &mut line_height,
        &mut line_width,
    )
    .unwrap();
    assert_eq!(line_height, 5);
    assert_eq!(line_width, 0);
    assert_eq!(current_index, 6);
}

#[test]
fn scope_parses_like_its_inside() {
    let mut user_definitions = Definitions::new();
    let mut current_index = 0;
    let body = scope(
        &chars("{1 2 +}"),
        &mut current_index,
        &mut 1,
        &mut 1,
        &mut user_definitions,
    )
    .unwrap();
    assert_eq!(body, parse("1 2 +").unwrap());
    assert_eq!(
        body,
        vec![
            Stack::Value(ValueType::Int(1)),
            Stack::Value(ValueType::Int(2)),
            Stack::Operation(OperationType::Add),
        ]
    );
    assert_eq!(current_index, 7);
}

#[test]
fn nested_scopes_balance() {
    let program = parse("{ {*} true if {*} false if }").unwrap();
    let star = || Stack::Value(ValueType::Scope(vec![Stack::Operation(OperationType::Mul)]));
    assert_eq!(
        program,
        vec![Stack::Value(ValueType::Scope(vec![
            star(),
            Stack::Value(ValueType::Bool(true)),
            Stack::Operation(OperationType::If),
            star(),
            Stack::Value(ValueType::Bool(false)),
            Stack::Operation(OperationType::If),
        ]))]
    );
}

#[test]
fn unclosed_scope_runs_to_the_end() {
    assert_eq!(
        parse("{1 2").unwrap(),
        vec![Stack::Value(ValueType::Scope(vec![
            Stack::Value(ValueType::Int(1)),
            Stack::Value(ValueType::Int(2)),
        ]))]
    );
}

#[test]
fn comments_are_skipped_and_a_lone_slash_divides() {
    assert_eq!(
        parse("6 /* six\n */ 3 // three\n / /* open").unwrap(),
        vec![
            Stack::Value(ValueType::Int(6)),
            Stack::Value(ValueType::Int(3)),
            Stack::Operation(OperationType::Div),
        ]
    );
}

#[test]
fn negative_number_and_minus_operator() {
    assert_eq!(
        parse("-5 3 -").unwrap(),
        vec![
            Stack::Value(ValueType::Int(-5)),
            Stack::Value(ValueType::Int(3)),
            Stack::Operation(OperationType::Sub),
        ]
    );
}

#[test]
fn integer_limits() {
    assert_eq!(
        parse("-9223372036854775808 9_223_372_036_854_775_807").unwrap(),
        vec![
            Stack::Value(ValueType::Int(i64::MIN)),
            Stack::Value(ValueType::Int(i64::MAX)),
        ]
    );
}

#[test]
fn malformed_integers_tell_why() {
    let reason = |text: &str| match parse(text) {
        Err(ParsingError::ExtractionError { what, reason }) => {
            assert_eq!(what, "Int");
            reason
        }
        other => panic!("no extraction error: {:?}", other),
    };
    assert_eq!(reason("9223372036854775808"), "9223372036854775808".parse::<i64>().unwrap_err().to_string());
    assert_eq!(reason("-9223372036854775809"), "-9223372036854775809".parse::<i64>().unwrap_err().to_string());
    assert_eq!(reason("1-2"), "1-2".parse::<i64>().unwrap_err().to_string());
    assert_eq!(reason("99999999999999999999-2"), "99999999999999999999-2".parse::<i64>().unwrap_err().to_string());
    assert_eq!(reason("1-2"), "invalid digit found in string");
    assert_eq!(reason("9223372036854775808"), "number too large to fit in target type");
    assert_eq!(reason("-9223372036854775809"), "number too small to fit in target type");
}

#[test]
fn malformed_decimals_are_extraction_errors() {
    for text in ["1.2.3", "1.-5", "1-2.5", "--1.5"] {
        assert!(text.parse::<f64>().is_err());
        if text.starts_with("--") {
            continue;
        }
        assert_eq!(
            parse(text).unwrap_err(),
            ParsingError::ExtractionError {
                what: "Float".to_string(),
                reason: text.parse::<f64>().unwrap_err().to_string(),
            }
        );
    }
    for text in ["5.", "-0.5", "0.25", "1_000.000_1"] {
        let program = parse(text).unwrap();
        let plain: String = text.chars().filter(|ch| *ch != '_').collect();
        assert_eq!(program, vec![Stack::Decimal(plain.clone())]);
        assert!(plain.parse::<f64>().is_ok());
    }
}

#[test]
fn unknown_word_is_a_keyword_error() {
    assert_eq!(
        parse("1 unknown_operand 2").unwrap_err(),
        ParsingError::KeywordError {
            reason: "Invalid keyword: `unknown_operand`.".to_string()
        }
    );
}

#[test]
fn booleans_and_operators_resolve() {
    assert_eq!(
        parse("true false && || ! == <= >= < > % ^ * + print println print_debug print_debug_stack switch reverse pop copy for while if").unwrap(),
        vec![
            Stack::Value(ValueType::Bool(true)),
            Stack::Value(ValueType::Bool(false)),
            Stack::Operation(OperationType::And),
            Stack::Operation(OperationType::Or),
            Stack::Operation(OperationType::Not),
            Stack::Operation(OperationType::Eq),
            Stack::Operation(OperationType::Leq),
            Stack::Operation(OperationType::Geq),
            Stack::Operation(OperationType::Lt),
            Stack::Operation(OperationType::Gt),
            Stack::Operation(OperationType::Mod),
            Stack::Operation(OperationType::Pow),
            Stack::Operation(OperationType::Mul),
            Stack::Operation(OperationType::Add),
            Stack::Operation(OperationType::Print),
            Stack::Operation(OperationType::Println),
            Stack::Operation(OperationType::PrintDebug),
            Stack::Operation(OperationType::PrintDebugStack),
            Stack::Operation(OperationType::Switch),
            Stack::Operation(OperationType::Reverse),
            Stack::Operation(OperationType::Pop),
            Stack::Operation(OperationType::Copy),
            Stack::Operation(OperationType::For),
            Stack::Operation(OperationType::While),
            Stack::Operation(OperationType::If),
        ]
    );
}

#[test]
fn macro_is_spliced_by_value_and_redefinition_leaves_earlier_uses() {
    assert_eq!(
        parse("{2 *} 'double' macro 4 double {3 *} 'double' macro double").unwrap(),
        vec![
            Stack::Value(ValueType::Int(4)),
            Stack::Value(ValueType::Int(2)),
            Stack::Operation(OperationType::Mul),
            Stack::Value(ValueType::Int(3)),
            Stack::Operation(OperationType::Mul),
        ]
    );
}

#[test]
fn definitions_made_inside_a_scope_are_seen_after_it() {
    assert_eq!(
        parse("{ 5 'FIVE' const } FIVE").unwrap(),
        vec![
            Stack::Value(ValueType::Scope(vec![])),
            Stack::Value(ValueType::Int(5)),
        ]
    );
}

#[test]
fn use_before_definition_fails() {
    assert_eq!(
        parse("FIVE 5 'FIVE' const").unwrap_err(),
        ParsingError::KeywordError {
            reason: "Invalid keyword: `FIVE`.".to_string()
        }
    );
}

#[test]
fn operators_cannot_be_shadowed() {
    assert_eq!(
        parse("{1} '+' macro +").unwrap(),
        vec![Stack::Operation(OperationType::Add)]
    );
}

#[test]
fn registration_failures() {
    assert_eq!(
        parse("'lonely' macro").unwrap_err(),
        ParsingError::RegistrationError {
            what: "Macro".to_string(),
            reason: "Not enough arguments.".to_string(),
        }
    );
    assert_eq!(
        parse("const").unwrap_err(),
        ParsingError::RegistrationError {
            what: "Constant".to_string(),
            reason: "Not enough arguments.".to_string(),
        }
    );
    assert_eq!(
        parse("5 'five' macro").unwrap_err(),
        ParsingError::MismatchedTypes {
            expected: "Scope".to_string(),
            got: Stack::Value(ValueType::Int(5)),
        }
    );
    assert_eq!(
        parse("+ 'plus' const").unwrap_err(),
        ParsingError::MismatchedTypes {
            expected: "Value".to_string(),
            got: Stack::Operation(OperationType::Add),
        }
    );
    assert_eq!(
        parse("{1} 5 macro").unwrap_err(),
        ParsingError::MismatchedTypes {
            expected: "Text".to_string(),
            got: Stack::Value(ValueType::Int(5)),
        }
    );
    assert_eq!(
        parse("1 true const").unwrap_err(),
        ParsingError::MismatchedTypes {
            expected: "Text".to_string(),
            got: Stack::Value(ValueType::Bool(true)),
        }
    );
}

#[test]
fn decimal_constant() {
    assert_eq!(
        parse("3.14 'PI' const PI PI").unwrap(),
        vec![
            Stack::Decimal("3.14".to_string()),
            Stack::Decimal("3.14".to_string()),
        ]
    );
}

#[test]
fn line_and_column_at_a_failure() {
    let mut stack = Vec::new();
    let mut user_definitions = Definitions::new();
    let mut line_height = 1;
    let mut line_width = 1;
    let error = fill(
        &chars("1 2\n  oops 3"),
        &mut stack,
        &mut line_height,
        &mut line_width,
        &mut user_definitions,
    )
    .unwrap_err();
    assert_eq!(
        error,
        ParsingError::KeywordError {
            reason: "Invalid keyword: `oops`.".to_string()
        }
    );
    assert_eq!((line_height, line_width), (2, 3));
    assert_eq!(
        stack,
        vec![
            Stack::Value(ValueType::Int(1)),
            Stack::Value(ValueType::Int(2)),
        ]
    );
}

#[test]
fn the_parse_goes_on_right_after_a_scope() {
    let one = || Stack::Value(ValueType::Scope(vec![Stack::Value(ValueType::Int(1))]));
    assert_eq!(parse("{1} 2").unwrap(), vec![one(), Stack::Value(ValueType::Int(2))]);
    assert_eq!(parse("{1}2").unwrap(), vec![one(), Stack::Value(ValueType::Int(2))]);
    assert_eq!(
        parse("{1}2 3").unwrap(),
        vec![
            one(),
            Stack::Value(ValueType::Int(2)),
            Stack::Value(ValueType::Int(3)),
        ]
    );
    assert_eq!(
        parse("{1}{2}if").unwrap(),
        vec![
            one(),
            Stack::Value(ValueType::Scope(vec![Stack::Value(ValueType::Int(2))])),
            Stack::Operation(OperationType::If),
        ]
    );
    assert_eq!(
        parse("{{}}'x'").unwrap(),
        vec![
            Stack::Value(ValueType::Scope(vec![Stack::Value(ValueType::Scope(vec![]))])),
            Stack::Value(ValueType::Text("x".to_string())),
        ]
    );
}

#[test]
fn the_parse_goes_on_right_after_a_block_comment() {
    assert_eq!(parse("/*c*/1").unwrap(), vec![Stack::Value(ValueType::Int(1))]);
    assert_eq!(
        parse("/**/1 2").unwrap(),
        vec![
            Stack::Value(ValueType::Int(1)),
            Stack::Value(ValueType::Int(2)),
        ]
    );
    assert_eq!(
        parse("1/* a */+ /**/2").unwrap(),
        vec![
            Stack::Value(ValueType::Int(1)),
            Stack::Operation(OperationType::Add),
            Stack::Value(ValueType::Int(2)),
        ]
    );
    // the `*` that opens a comment does not close it
    assert_eq!(parse("/*/ 1 */2").unwrap(), vec![Stack::Value(ValueType::Int(2))]);
    assert_eq!(parse("1 /*/ 2").unwrap(), vec![Stack::Value(ValueType::Int(1))]);
    assert_eq!(parse("/* a */").unwrap(), vec![]);
    assert_eq!(parse("1 /* never closed 2").unwrap(), vec![Stack::Value(ValueType::Int(1))]);
}

#[test]
fn any_blank_ends_a_word() {
    assert_eq!(
        parse("1\t2 +\tprint\r\npop\n").unwrap(),
        vec![
            Stack::Value(ValueType::Int(1)),
            Stack::Value(ValueType::Int(2)),
            Stack::Operation(OperationType::Add),
            Stack::Operation(OperationType::Print),
            Stack::Operation(OperationType::Pop),
        ]
    );
    let mut stack = Vec::new();
    let mut i = 0;
    keyword(&chars("if\tx"), &mut stack, &mut i, &mut Definitions::new()).unwrap();
    assert_eq!(stack, vec![Stack::Operation(OperationType::If)]);
    assert_eq!(i, 1);
}

#[test]
fn column_counts_a_scope_twice() {
    let mut stack = Vec::new();
    let mut user_definitions = Definitions::new();
    let mut line_height = 1;
    let mut line_width = 1;
    fill(
        &chars("{12} x"),
        &mut stack,
        &mut line_height,
        &mut line_width,
        &mut user_definitions,
    )
    .unwrap_err();
    // inside: "12" moves the column by 2; the scope as a whole by 4 more; the blank by 1
    assert_eq!((line_height, line_width), (1, 1 + 2 + 4 + 1));
}

#[test]
fn numbers_are_read_as_the_standard_library_reads_them() {
    // every text of up to six of these characters that begins as a number does
    let alphabet = ['0', '7', '9', '-', '_', '.'];
    let mut texts: Vec<String> = vec![String::new()];
    let mut all: Vec<String> = Vec::new();
    for _ in 0..6 {
        let mut longer = Vec::new();
        for text in &texts {
            for ch in alphabet {
                let mut next = text.clone();
                next.push(ch);
                longer.push(next);
            }
        }
        all.extend(longer.iter().cloned());
        texts = longer;
    }
    for digits in [
        "9223372036854775807",
        "9223372036854775808",
        "-9223372036854775808",
        "-9223372036854775809",
        "00000000000000000000000007",
        "-000000000000000000000000",
        "18446744073709551616",
        "99999999999999999999999999999.5",
    ] {
        all.push(digits.to_string());
    }
    let mut seen = 0;
    for text in all {
        let src = chars(&text);
        if !stack_lang::scan::looks_like_number(&src) {
            continue;
        }
        seen += 1;
        let plain: String = text.chars().filter(|ch| *ch != '_').collect();
        let mut stack = Vec::new();
        let mut i = 0;
        let result = number(&src, &mut stack, &mut i);
        assert_eq!(i, text.len() - 1, "{}", text);
        if text.contains('.') {
            match plain.parse::<f64>() {
                Ok(_) => {
                    assert_eq!(result, Ok(()), "{}", text);
                    assert_eq!(stack, vec![Stack::Decimal(plain)], "{}", text);
                }
                Err(error) => {
                    assert_eq!(
                        result,
                        Err(ParsingError::ExtractionError {
                            what: "Float".to_string(),
                            reason: error.to_string(),
                        }),
                        "{}",
                        text
                    );
                    assert!(stack.is_empty());
                }
            }
        } else {
            match plain.parse::<i64>() {
                Ok(value) => {
                    assert_eq!(result, Ok(()), "{}", text);
                    assert_eq!(stack, vec![Stack::Value(ValueType::Int(value))], "{}", text);
                }
                Err(error) => {
                    assert_eq!(
                        result,
                        Err(ParsingError::ExtractionError {
                            what: "Int".to_string(),
                            reason: error.to_string(),
                        }),
                        "{}",
                        text
                    );
                    assert!(stack.is_empty());
                }
            }
        }
    }
    assert!(seen > 10_000);
}
