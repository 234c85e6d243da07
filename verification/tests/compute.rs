use mathcore::compute::cache::{
    AtomicCache, CacheError, ExpansionCache, ExpansionResult, ExpressionCache, L1Cache, PrecomputeCache,
};
use mathcore::compute::lexer::{Lexer, Token};
use mathcore::compute::replay::{ComputationTrace, TraceBuilder, TraceReplayer};
use mathcore::compute::simd::AtomicCounter;
use mathcore::compute::symbolic;
use mathcore::compute::validation::{
    validate_expression, validate_variable_name, validate_variable_names, ValidationError,
    MAX_EXPRESSION_LENGTH, MAX_VARIABLES_COUNT, MAX_VARIABLE_NAME_LENGTH,
};

#[test]
fn test_validate_expression() {
    assert!(validate_expression("x + y").is_ok());
    assert!(validate_expression("x^2 + 2*x + 1").is_ok());
    assert!(validate_expression("").is_err());
    assert!(validate_expression(&"x".repeat(MAX_EXPRESSION_LENGTH + 1)).is_err());
    assert!(validate_expression("x + \x00").is_err());
    assert!(validate_expression("sin(x) + cos(y)").is_ok());
    assert!(validate_expression("x * (y + z)").is_ok());
    assert!(validate_expression("sqrt(x^2 + y^2)").is_ok());
}

#[test]
fn test_validate_expression_edge_cases() {
    assert!(validate_expression("0").is_ok());
    assert!(validate_expression("0.0").is_ok());
    assert!(validate_expression(".5").is_ok());
    assert!(validate_expression("1e10").is_ok());
    assert!(validate_expression("   ").is_ok());
    assert!(validate_expression("\t\n\r").is_ok());
}

#[test]
fn validate_expression_errors_in_detail() {
    assert_eq!(
        validate_expression(""),
        Err(ValidationError::EmptyInput { context: "Expression".to_string() })
    );
    assert_eq!(
        validate_expression("x + \x00"),
        Err(ValidationError::InvalidCharacters {
            position: 4,
            char: '\x00',
            context: "Expression".to_string()
        })
    );
    // The position counts bytes: `π` takes two.
    assert_eq!(
        validate_expression("π#"),
        Err(ValidationError::InvalidCharacters { position: 2, char: '#', context: "Expression".to_string() })
    );
    assert!(validate_expression("∫ x dx").is_ok());
    assert_eq!(
        validate_expression(&"x".repeat(MAX_EXPRESSION_LENGTH + 1)),
        Err(ValidationError::TooLong {
            max: MAX_EXPRESSION_LENGTH,
            actual: MAX_EXPRESSION_LENGTH + 1,
            context: "Expression".to_string()
        })
    );
    assert!(validate_expression(&"x".repeat(MAX_EXPRESSION_LENGTH)).is_ok());
}

#[test]
fn test_validate_variable_name() {
    assert!(validate_variable_name("x").is_ok());
    assert!(validate_variable_name("_var").is_ok());
    assert!(validate_variable_name("var123").is_ok());
    assert!(validate_variable_name("").is_err());
    assert!(validate_variable_name("123var").is_err());
    assert!(validate_variable_name("var-name").is_err());
    assert!(validate_variable_name("var name").is_err());
}

#[test]
fn test_validate_variable_name_edge_cases() {
    assert!(validate_variable_name("a").is_ok());
    assert!(validate_variable_name("Z").is_ok());
    assert!(validate_variable_name("_").is_ok());
    assert!(validate_variable_name("_1").is_ok());
    assert!(validate_variable_name("a1b2c3").is_ok());
    assert!(validate_variable_name(&"a".repeat(MAX_VARIABLE_NAME_LENGTH)).is_ok());
    assert!(validate_variable_name(&"a".repeat(MAX_VARIABLE_NAME_LENGTH + 1)).is_err());
}

#[test]
fn validate_variable_name_errors_in_detail() {
    assert_eq!(
        validate_variable_name(""),
        Err(ValidationError::InvalidVariableName {
            name: String::new(),
            reason: "name cannot be empty".to_string()
        })
    );
    assert_eq!(
        validate_variable_name("1x"),
        Err(ValidationError::InvalidVariableName {
            name: "1x".to_string(),
            reason: "name must start with a letter or underscore".to_string()
        })
    );
    assert_eq!(
        validate_variable_name("a-b"),
        Err(ValidationError::InvalidVariableName {
            name: "a-b".to_string(),
            reason: "invalid character '-' at position 1".to_string()
        })
    );
    assert_eq!(
        validate_variable_name(&"a".repeat(MAX_VARIABLE_NAME_LENGTH + 1)),
        Err(ValidationError::InvalidVariableName {
            name: "a".repeat(MAX_VARIABLE_NAME_LENGTH + 1),
            reason: "name too long (max 256)".to_string()
        })
    );
    // A letter outside ASCII may start a name but not stand in it.
    assert_eq!(
        validate_variable_name("é"),
        Err(ValidationError::InvalidVariableName {
            name: "é".to_string(),
            reason: "invalid character 'é' at position 0".to_string()
        })
    );
}

#[test]
fn validation_test_validation_error_display() {
    let err = ValidationError::TooLong { max: 100, actual: 200, context: "Test".to_string() };
    assert!(err.to_string().contains("200"));

    let err = ValidationError::EmptyInput { context: "Expression".to_string() };
    assert!(err.to_string().contains("empty"));

    let err = ValidationError::InvalidVariableName {
        name: "test".to_string(),
        reason: "invalid character".to_string(),
    };
    assert!(err.to_string().contains("test"));
}

#[test]
fn validation_error_messages_exact() {
    let err = ValidationError::TooLong { max: 100, actual: 200, context: "Test".to_string() };
    assert_eq!(err.to_string(), "Test: input too long (max 100, actual 200)");
    let err = ValidationError::InvalidCharacters { position: 3, char: '$', context: "Expression".to_string() };
    assert_eq!(err.to_string(), "Expression: invalid character '$' at position 3");
    let err = ValidationError::EmptyInput { context: "Expression".to_string() };
    assert_eq!(err.to_string(), "Expression: input cannot be empty");
    let err = ValidationError::TooManyVariables { max: 1000, actual: 1001 };
    assert_eq!(err.to_string(), "Too many variables: max 1000, actual 1001");
    let err = ValidationError::InvalidVariableName { name: "a b".to_string(), reason: "bad".to_string() };
    assert_eq!(err.to_string(), "Invalid variable name 'a b': bad");
}

#[test]
fn test_validation_error_debug() {
    let err = ValidationError::TooLong { max: 100, actual: 200, context: "Test".to_string() };
    let debug_str = format!("{:?}", err);
    assert!(debug_str.contains("TooLong"));
}

#[test]
fn test_l1_cache_basic() {
    let mut cache: L1Cache<String, i32> = L1Cache::new(10, 60);
    cache.insert("key1".to_string(), 42);
    assert_eq!(cache.get(&"key1".to_string()), Some(42));
}

#[test]
fn test_l1_cache_eviction() {
    let mut cache: L1Cache<String, i32> = L1Cache::new(2, 60);
    cache.insert("key1".to_string(), 1);
    cache.insert("key2".to_string(), 2);
    cache.insert("key3".to_string(), 3); // Should evict key1

    assert!(cache.get(&"key1".to_string()).is_none());
    assert!(cache.get(&"key2".to_string()).is_some());
    assert!(cache.get(&"key3".to_string()).is_some());
}

#[test]
fn l1_cache_evicts_least_used() {
    let mut cache: L1Cache<String, i32> = L1Cache::new(2, 60);
    cache.insert("a".to_string(), 1);
    cache.insert("b".to_string(), 2);
    assert_eq!(cache.get("a"), Some(1));
    cache.insert("c".to_string(), 3); // "b" was read least often
    assert_eq!(cache.len(), 2);
    assert!(cache.contains("a"));
    assert!(!cache.contains("b"));
    assert!(cache.contains("c"));
}

#[test]
fn l1_cache_counts_hits_and_misses() {
    let mut cache: L1Cache<String, i32> = L1Cache::new(10, 60);
    cache.insert("key1".to_string(), 42);
    cache.get("key1");
    cache.get("missing");
    assert_eq!(cache.hits(), 1);
    assert_eq!(cache.misses(), 1);
    assert_eq!(cache.capacity(), 10);
    assert_eq!(cache.remove("key1"), Some(42));
    assert!(cache.is_empty());
    cache.insert("k".to_string(), 1);
    cache.clear();
    assert_eq!(cache.len(), 0);
}

#[test]
fn l1_cache_expired_entry_is_a_miss() {
    let mut cache: L1Cache<String, i32> = L1Cache::new(10, 0);
    cache.insert("k".to_string(), 1);
    assert_eq!(cache.get("k"), None);
    assert_eq!(cache.misses(), 1);
}

#[test]
fn cache_test_precompute_cache() {
    let mut cache: PrecomputeCache<i32> = PrecomputeCache::new();
    cache.insert("factorial_5".to_string(), 120);

    assert_eq!(cache.get(&"factorial_5".to_string()), Some(120));
}

#[test]
fn precompute_get_or_insert_with_runs_once() {
    let mut cache: PrecomputeCache<i32> = PrecomputeCache::default();
    assert_eq!(cache.get_or_insert_with("k", || 7), 7);
    assert_eq!(cache.get_or_insert_with("k", || 9), 7);
    assert_eq!(cache.len(), 1);
    assert!(cache.contains("k"));
    cache.clear();
    assert!(cache.is_empty());
}

#[test]
fn test_atomic_cache() {
    let mut cache: AtomicCache<i32> = AtomicCache::new();

    cache.insert("key1".to_string(), 42);
    assert_eq!(cache.get(&"key1".to_string()), Some(42));

    let gen = cache.generation();
    assert!(gen > 0);
}

#[test]
fn atomic_cache_generations() {
    let mut cache: AtomicCache<i32> = AtomicCache::default();
    assert_eq!(cache.generation(), 0);
    cache.insert("a".to_string(), 1);
    cache.invalidate();
    assert_eq!(cache.generation(), 2);
    assert_eq!(cache.get("a"), Some(1));
    cache.clear();
    assert_eq!(cache.generation(), 3);
    assert_eq!(cache.get("a"), None);
}

#[test]
fn expansion_cache_round_trip() {
    let mut cache = ExpansionCache::new();
    assert!(cache.get("x*(y+1)").is_none());
    cache.insert("x*(y+1)", ExpansionResult { expanded: "x*y + x".to_string(), terms: 2, operations: 3 });
    let got = cache.get("x*(y+1)").unwrap();
    assert_eq!(got.expanded, "x*y + x");
    assert_eq!(got.terms, 2);
    cache.clear();
    assert!(cache.get("x*(y+1)").is_none());
}

#[test]
fn cache_error_messages() {
    assert_eq!(CacheError::Miss("x".to_string()).to_string(), "Cache miss: x");
    assert_eq!(CacheError::InvalidKey("k".to_string()).to_string(), "Invalid key: k");
    assert_eq!(CacheError::Serialization("bad".to_string()).to_string(), "Serialization error: bad");
}

#[test]
fn test_atomic_counter() {
    let mut counter = AtomicCounter::new(0);
    assert_eq!(counter.increment(), 1);
    assert_eq!(counter.increment(), 2);
    assert_eq!(counter.get(), 2);
}

#[test]
fn lexer_reads_tokens() {
    let mut lexer = Lexer::new("  foo_1 3.14.5+");
    lexer.skip_whitespace();
    assert_eq!(lexer.position(), 2);
    assert_eq!(lexer.peek(), Some('f'));
    assert_eq!(lexer.read_identifier(), "foo_1");
    lexer.skip_whitespace();
    assert_eq!(lexer.read_number_text(), "3.14");
    assert_eq!(lexer.advance(), Some('.'));
    assert_eq!(lexer.read_number_text(), "5");
    assert_eq!(lexer.advance(), Some('+'));
    assert_eq!(lexer.advance(), None);
    lexer.set_position(2);
    assert_eq!(lexer.peek(), Some('f'));
}

fn num(t: &str) -> Token {
    Token::Number(t.to_string())
}

fn ident(t: &str) -> Token {
    Token::Identifier(t.to_string())
}

#[test]
fn lexer_next_token_reads_operators_and_literals() {
    let mut lexer = Lexer::new("2 + 3 * 4");
    assert_eq!(lexer.next_token(), num("2"));
    assert_eq!(lexer.next_token(), Token::Plus);
    assert_eq!(lexer.next_token(), num("3"));
    assert_eq!(lexer.next_token(), Token::Star);
    assert_eq!(lexer.next_token(), num("4"));
    assert_eq!(lexer.next_token(), Token::Eof);
}

#[test]
fn lexer_tokenize_skips_unknown_characters() {
    let mut lexer = Lexer::new("sin(x_1) @ 3.14.5, -y^2/z");
    assert_eq!(
        lexer.tokenize(),
        vec![
            ident("sin"),
            Token::LParen,
            ident("x_1"),
            Token::RParen,
            num("3.14"),
            num("5"),
            Token::Comma,
            Token::Minus,
            ident("y"),
            Token::Caret,
            num("2"),
            Token::Slash,
            ident("z"),
            Token::Eof,
        ]
    );
    let mut empty = Lexer::new("   ");
    assert_eq!(empty.tokenize(), vec![Token::Eof]);
}

#[test]
fn validate_variable_names_count_then_first_bad_name() {
    let names = vec!["x".to_string(), "y".to_string()];
    assert!(validate_variable_names(&names).is_ok());
    let names = vec!["x".to_string(), "bad-var".to_string(), "9z".to_string()];
    assert_eq!(
        validate_variable_names(&names),
        Err(ValidationError::InvalidVariableName {
            name: "bad-var".to_string(),
            reason: "invalid character '-' at position 3".to_string()
        })
    );
    let many: Vec<String> = (0..MAX_VARIABLES_COUNT).map(|i| format!("var{}", i)).collect();
    assert!(validate_variable_names(&many).is_ok());
    let mut too_many = many.clone();
    too_many.push("extra".to_string());
    assert_eq!(
        validate_variable_names(&too_many),
        Err(ValidationError::TooManyVariables { max: 1000, actual: 1001 })
    );
}

#[test]
fn expression_cache_keeps_each_kind_apart() {
    let mut cache: ExpressionCache<String> = ExpressionCache::new(10, 10, 60);
    cache.cache_parsed("x^2", "tree".to_string());
    cache.cache_simplified("x+0", "x".to_string());
    cache.cache_derivative("x^2", "x", "2*x".to_string());
    cache.cache_integral("x^2", "x", "x^3/3".to_string());
    assert_eq!(cache.get_parsed("x^2"), Some("tree".to_string()));
    assert_eq!(cache.get_simplified("x+0"), Some("x".to_string()));
    assert_eq!(cache.get_derivative("x^2", "x"), Some("2*x".to_string()));
    assert_eq!(cache.get_derivative("x^2", "y"), None);
    assert_eq!(cache.get_integral("x^2", "x"), Some("x^3/3".to_string()));
    assert_eq!(cache.derivatives().capacity(), 20);
    assert_eq!(cache.parsed().hits(), 1);
    assert_eq!(cache.derivatives().misses(), 1);
    cache.clear();
    assert!(cache.parsed().is_empty());
    assert_eq!(cache.get_integral("x^2", "x"), None);
}

#[test]
fn expression_cache_pair_keys_do_not_collide() {
    let mut cache: ExpressionCache<u32> = ExpressionCache::new(4, 4, 60);
    // The same concatenation "ab" + "c" and "a" + "bc" are different pairs.
    cache.cache_derivative("ab", "c", 1);
    cache.cache_derivative("a", "bc", 2);
    assert_eq!(cache.get_derivative("ab", "c"), Some(1));
    assert_eq!(cache.get_derivative("a", "bc"), Some(2));
}


#[test]
fn test_trace_creation() {
    let trace = ComputationTrace::new("x^2 + 2*x + 1");
    assert_eq!(trace.input, "x^2 + 2*x + 1");
    assert_eq!(trace.step_count(), 0);
}

#[test]
fn test_trace_builder() {
    let mut builder = TraceBuilder::new("x^2");
    builder.record_parse("x");
    builder.record_evaluate("x", vec![("x".to_string(), 3.0f64.to_bits())], 9.0f64.to_bits());
    let trace = builder.build();

    assert_eq!(trace.step_count(), 2);
    assert_eq!(trace.final_result_bits, None);
    let steps = trace.steps();
    assert_eq!(steps[0].description, "Parsed expression");
    assert_eq!(steps[1].description, "Evaluated with variables");
    assert_eq!(steps[1].step, 1);
    assert_eq!(steps[1].parent, Some(0));
    assert_eq!(f64::from_bits(steps[1].result_bits.unwrap()), 9.0);
    assert!(steps[1].is_evaluation);
}

#[test]
fn trace_builder_records_simplify_and_differentiate() {
    let mut builder = TraceBuilder::new("x^2");
    builder.record_simplify("x^2");
    builder.record_differentiate("2*x", "x");
    let mut trace = builder.build();
    trace.set_result(2.0f64.to_bits());
    trace.set_elapsed(15);
    let steps = trace.steps();
    assert!(steps[0].is_simplification);
    assert_eq!(steps[0].parent, None);
    assert_eq!(steps[1].description, "Differentiated with respect to x");
    assert_eq!(steps[1].expression, "2*x");
    assert_eq!(trace.elapsed_us, Some(15));
    assert_eq!(trace.final_result_bits, Some(2.0f64.to_bits()));
}

#[test]
fn test_replayer() {
    let mut trace = ComputationTrace::new("test");
    trace.add_step("Step 1", "1 + 1");
    trace.add_step("Step 2", "2");

    let mut replayer = TraceReplayer::new(trace);

    assert!(replayer.is_at_start());
    assert_eq!(replayer.current_step().unwrap().expression, "1 + 1");

    replayer.next();
    assert_eq!(replayer.current_step().unwrap().expression, "2");

    replayer.prev();
    assert_eq!(replayer.current_step().unwrap().expression, "1 + 1");

    assert!(replayer.is_at_start());
}

#[test]
fn replayer_stays_within_the_trace() {
    let mut trace = ComputationTrace::new("t");
    trace.add_step("a", "1");
    trace.add_step("b", "2");
    trace.add_step("c", "3");
    let mut replayer = TraceReplayer::new(trace);
    assert_eq!(replayer.total_steps(), 3);
    assert_eq!(replayer.jump_to(2).unwrap().description, "c");
    assert!(replayer.is_at_end());
    assert_eq!(replayer.next().unwrap().description, "c");
    assert_eq!(replayer.jump_to(7).unwrap().description, "c");
    assert_eq!(replayer.prev().unwrap().description, "b");
    assert_eq!(replayer.trace().step_count(), 3);
}

#[test]
fn test_empty_trace() {
    let trace = ComputationTrace::new("empty");
    let mut replayer = TraceReplayer::new(trace);

    assert!(replayer.current_step().is_none());
    replayer.next();
    assert!(replayer.current_step().is_none());
    replayer.prev();
    assert!(replayer.current_step().is_none());
}

#[test]
fn test_l1_cache_stats() {
    let mut cache: L1Cache<String, i32> = L1Cache::new(10, 60);
    cache.insert("key1".to_string(), 42);
    cache.get(&"key1".to_string());
    cache.get(&"missing".to_string());

    assert_eq!(cache.hits(), 1);
    assert_eq!(cache.misses(), 1);
}

#[test]
fn test_expression_cache() {
    let mut cache = ExpressionCache::new(10, 10, 60);

    let expr = "x^2 + 2*x + 1";
    let ast = symbolic::parse(expr).unwrap();
    cache.cache_parsed(expr, ast.clone());

    let cached = cache.get_parsed(expr);
    assert!(cached.is_some());
    assert_eq!(cached.unwrap(), ast);
}

fn number_value(t: Token) -> f64 {
    match t {
        Token::Number(text) => text.parse().unwrap(),
        other => panic!("not a number: {:?}", other),
    }
}

#[test]
fn test_lexer_basic_tokens() {
    let mut lexer = Lexer::new("2 + 3 * 4");
    assert_eq!(number_value(lexer.next_token()), 2.0);
    assert_eq!(lexer.next_token(), Token::Plus);
    assert_eq!(number_value(lexer.next_token()), 3.0);
    assert_eq!(lexer.next_token(), Token::Star);
    assert_eq!(number_value(lexer.next_token()), 4.0);
    assert_eq!(lexer.next_token(), Token::Eof);
}

#[test]
fn test_lexer_identifiers() {
    let mut lexer = Lexer::new("x + sin(y)");
    assert_eq!(lexer.next_token(), Token::Identifier("x".to_string()));
    assert_eq!(lexer.next_token(), Token::Plus);
    assert_eq!(lexer.next_token(), Token::Identifier("sin".to_string()));
    assert_eq!(lexer.next_token(), Token::LParen);
    assert_eq!(lexer.next_token(), Token::Identifier("y".to_string()));
    assert_eq!(lexer.next_token(), Token::RParen);
    assert_eq!(lexer.next_token(), Token::Eof);
}

#[test]
fn test_lexer_functions() {
    let mut lexer = Lexer::new("sqrt(25) + log10(100)");
    assert_eq!(lexer.next_token(), Token::Identifier("sqrt".to_string()));
    assert_eq!(lexer.next_token(), Token::LParen);
    assert_eq!(number_value(lexer.next_token()), 25.0);
    assert_eq!(lexer.next_token(), Token::RParen);
    assert_eq!(lexer.next_token(), Token::Plus);
    assert_eq!(lexer.next_token(), Token::Identifier("log10".to_string()));
    assert_eq!(lexer.next_token(), Token::LParen);
    assert_eq!(number_value(lexer.next_token()), 100.0);
    assert_eq!(lexer.next_token(), Token::RParen);
    assert_eq!(lexer.next_token(), Token::Eof);
}

#[test]
fn test_lexer_with_whitespace() {
    let mut lexer = Lexer::new("  123  \t\n  +   456  ");
    assert_eq!(number_value(lexer.next_token()), 123.0);
    assert_eq!(lexer.next_token(), Token::Plus);
    assert_eq!(number_value(lexer.next_token()), 456.0);
    assert_eq!(lexer.next_token(), Token::Eof);
}

#[test]
fn l1_cache_read_by_age() {
    let mut cache: L1Cache<String, i32> = L1Cache::new(10, 60);
    cache.insert("key1".to_string(), 42);
    assert_eq!(cache.get_at_age("key1", 0), Some(42));
    assert_eq!(cache.hits(), 1);
    assert_eq!(cache.get_at_age("key1", 60), None);
    assert_eq!(cache.get_at_age("missing", 0), None);
    assert_eq!(cache.misses(), 2);
    assert_eq!(cache.len(), 1);
}

#[test]
fn variable_names_must_be_ascii() {
    assert!(validate_variable_name("x_1").is_ok());
    assert!(validate_variable_name("_tmp").is_ok());
    assert!(validate_variable_name("1x").is_err());
    let e = validate_variable_name("αβ").unwrap_err();
    match e {
        ValidationError::InvalidVariableName { reason, .. } => {
            assert!(reason.starts_with("invalid character 'α'"))
        }
        other => panic!("unexpected {:?}", other),
    }
}

#[test]
fn white_space_agrees_with_std() {
    for code in 0u32..0x11000 {
        if let Some(c) = char::from_u32(code) {
            assert_eq!(mathcore::text::char_is_whitespace(c), c.is_whitespace(), "{:?}", c);
        }
    }
}

#[test]
fn l1_cache_insert_then_read_within_ttl() {
    let mut cache: L1Cache<String, i32> = L1Cache::new(2, 60);
    cache.insert("key1".to_string(), 1);
    cache.insert("key2".to_string(), 2);
    cache.insert("key3".to_string(), 3);
    assert_eq!(cache.len(), 2);
    assert_eq!(cache.get_at_age("key1", 0), None);
    assert_eq!(cache.get_at_age("key2", 59), Some(2));
    assert_eq!(cache.get_at_age("key3", 0), Some(3));
}
