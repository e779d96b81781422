use simple_db::ast::{Decimal, Expression, Literal, Statement, Value};
use simple_db::locate::WithLocation;
use simple_db::meta::{Column, DataSource, Schema, SimpleMemoryDataSource, SimpleMemoryRow};
use simple_db::parser::parse;
use simple_db::scan::{scan_all, Scan, ScanState, SeqScan};
use simple_db::token::{Keyword, Token};
use simple_db::tokenizer::tokenize;
use simple_db::types::{DataType, Float64, Int32, OwnValue, Varchar};

fn tokens_of(sql: &str) -> Vec<Token> {
    tokenize(sql).unwrap().tokens.iter().map(|t| t.token.clone()).collect()
}

fn tokenize_error(sql: &str) -> String {
    tokenize(sql).unwrap_err().message
}

fn canonical(sql: &str) -> Vec<String> {
    let tokens = tokenize(sql).unwrap();
    parse(&tokens).unwrap().statements.iter().map(|s| s.to_string()).collect()
}

fn parse_error(sql: &str) -> String {
    let tokens = tokenize(sql).unwrap();
    parse(&tokens).unwrap_err().message
}

#[test]
fn unknown_char_is_reported_with_its_place() {
    let error = tokenize("SELECT 1, @a FROM stu WHERE a > 1;").unwrap_err();
    assert_eq!(
        error.to_string(),
        "error unknown char @ as Ln 1, Col 11 near \"SELECT 1, @a FROM stu WHERE a > \""
    );
}

#[test]
fn error_window_is_clamped_to_the_text() {
    let error = tokenize("SELECT a, b, c, d, e, f, g FROM t WHERE x > 1 AND y < 2 #").unwrap_err();
    assert_eq!(error.message, "unknown char #");
    assert_eq!(error.location.offset, 56);
    assert_eq!(
        error.to_string(),
        "error unknown char # as Ln 1, Col 57 near \"x > 1 AND y < 2 #\""
    );
}

#[test]
fn comparison_operators() {
    assert_eq!(
        tokens_of("< <= <> > >= != ="),
        vec![
            Token::LessThan,
            Token::LessThanOrEqual,
            Token::NotEqual,
            Token::GreaterThan,
            Token::GreaterThanOrEqual,
            Token::NotEqual,
            Token::Equal,
        ]
    );
    assert_eq!(tokens_of("a<"), vec![Token::Identifier("a".to_string()), Token::LessThan]);
    assert_eq!(tokens_of("a>"), vec![Token::Identifier("a".to_string()), Token::GreaterThan]);
}

#[test]
fn bang_errors() {
    assert_eq!(tokenize_error("a !x"), "unexpected char x");
    assert_eq!(tokenize_error("a !"), "unexpected end of sql");
}

#[test]
fn number_limits() {
    assert_eq!(
        tokens_of("18446744073709551615"),
        vec![Token::IntegerLiteral(0, Some(u64::MAX))]
    );
    let error = tokenize("SELECT 18446744073709551616").unwrap_err();
    assert_eq!(error.message, "too large number");
    assert_eq!(error.location.column_number, 27);
    let zeros = "0".repeat(65535);
    assert_eq!(tokens_of(&zeros), vec![Token::IntegerLiteral(65535, None)]);
    let too_many = "0".repeat(65536);
    let error = tokenize(&too_many).unwrap_err();
    assert_eq!(error.message, "too many zeros");
    assert_eq!(error.location.offset, 65535);
}

#[test]
fn number_fidelity_on_values() {
    assert_eq!(tokens_of("12345"), vec![Token::IntegerLiteral(0, Some(12345))]);
    assert_eq!(tokens_of("7"), vec![Token::IntegerLiteral(0, Some(7))]);
    assert_eq!(tokens_of("000"), vec![Token::IntegerLiteral(3, None)]);
    assert_eq!(tokens_of("0"), vec![Token::IntegerLiteral(1, None)]);
    assert_eq!(tokens_of("00100"), vec![Token::IntegerLiteral(2, Some(100))]);
}

#[test]
fn string_literal_errors() {
    assert_eq!(tokenize_error("'abc"), "unexpected end of string literal");
    assert_eq!(tokenize_error("'ab\\"), "unexpected end of string literal");
    assert_eq!(tokenize_error("'a\nb'"), "unexpected newline in string literal");
    assert_eq!(tokenize_error("'a\\qb'"), "unknown escape char q");
    assert_eq!(tokenize_error("'abc'x"), "unexpected char x after text abc");
}

#[test]
fn string_escapes_decode() {
    assert_eq!(
        tokens_of("'it''s \\\\ \\n\\t\\r\\0\\\"\\''"),
        vec![Token::StringLiteral("it's \\ \n\t\r\0\"'".to_string())]
    );
    assert_eq!(
        tokens_of("'a', 'b';"),
        vec![
            Token::StringLiteral("a".to_string()),
            Token::Comma,
            Token::StringLiteral("b".to_string()),
            Token::Semicolon,
        ]
    );
}

#[test]
fn keywords_fold_case_and_identifiers_keep_it() {
    assert_eq!(
        tokens_of("select FrOm Having selection a_1 B2"),
        vec![
            Token::Keyword(Keyword::SELECT),
            Token::Keyword(Keyword::FROM),
            Token::Keyword(Keyword::HAVING),
            Token::Identifier("selection".to_string()),
            Token::Identifier("a_1".to_string()),
            Token::Identifier("B2".to_string()),
        ]
    );
    assert_eq!(Keyword::all().len(), 19);
    assert_eq!(Keyword::max_length(), 6);
    assert_eq!(Keyword::from_upper(&"ORDER".chars().collect()), Some(Keyword::ORDER));
    assert_eq!(Keyword::from_upper(&"order".chars().collect()), None);
}

#[test]
fn token_offsets_increase() {
    let tokens = tokenize("SELECT a,b FROM t WHERE x>=10;").unwrap();
    let offsets: Vec<usize> = tokens.tokens.iter().map(|t| t.location.offset).collect();
    assert_eq!(offsets, vec![0, 7, 8, 9, 11, 16, 18, 24, 25, 27, 29]);
}

#[test]
fn line_breaks_count_once() {
    let tokens = tokenize("SELECT\r\na\rb\nc").unwrap();
    let places: Vec<(usize, usize)> =
        tokens.tokens.iter().map(|t| (t.location.line_number, t.location.column_number)).collect();
    assert_eq!(places, vec![(1, 1), (2, 1), (3, 1), (4, 1)]);
}

#[test]
fn precedence_and_left_association() {
    assert_eq!(canonical("SELECT a*b+c"), vec!["SELECT ((a * b) + c);"]);
    assert_eq!(canonical("SELECT a+b*c"), vec!["SELECT (a + (b * c));"]);
    assert_eq!(canonical("SELECT a-b-c"), vec!["SELECT ((a - b) - c);"]);
    assert_eq!(canonical("SELECT a/b*c"), vec!["SELECT ((a / b) * c);"]);
    assert_eq!(canonical("SELECT a OR b AND c"), vec!["SELECT (a OR (b AND c));"]);
    assert_eq!(canonical("SELECT a = b <> c"), vec!["SELECT (a = (b <> c));"]);
    assert_eq!(canonical("SELECT -a + NOT b"), vec!["SELECT (- a + NOT b);"]);
}

#[test]
fn whitespace_does_not_change_the_tree() {
    assert_eq!(
        canonical("SELECT a+1 FROM t WHERE b>2"),
        canonical("  SELECT   a +\n1 FROM\r\n t  WHERE b >  2 ")
    );
}

#[test]
fn clauses_print_canonically() {
    assert_eq!(
        canonical("select t.a from (select b from c) as t;"),
        vec!["SELECT t.a FROM (SELECT b FROM c) AS t;"]
    );
    assert_eq!(
        canonical("SELECT count(*) a, 'x' AS y FROM t, u WHERE a > 1 GROUP BY a, b HAVING a>1 ORDER BY a DESC, b LIMIT 10 OFFSET 5"),
        vec!["SELECT count(*) AS a, 'x' AS y FROM t, u WHERE (a > 1) GROUP BY a, b HAVING (a > 1) ORDER BY a DESC, b ASC LIMIT 10 OFFSET 5;"]
    );
    assert_eq!(canonical("SELECT 3.0625, 1.0, 2.000"), vec!["SELECT 3.0625, 1.0, 2.0;"]);
    assert_eq!(canonical(";;"), vec![";"]);
    assert_eq!(canonical("; SELECT 1; SELECT 2"), vec![";", "SELECT 1;", "SELECT 2;"]);
}

#[test]
fn period_after_integer_is_left_for_the_caller() {
    let tokens = tokenize("SELECT 1.").unwrap();
    assert_eq!(parse(&tokens).unwrap_err().message, "invalid token ., expect keyword FROM");
    let tokens = tokenize("SELECT 1.5").unwrap();
    let statements = parse(&tokens).unwrap();
    match &statements.statements[0] {
        Statement::Select(select) => match &select.items[0] {
            simple_db::ast::SelectItem::Expression(Expression::Literal(Literal { value, .. })) => {
                assert_eq!(*value, Value::Float(Decimal { integer: 1, fraction_zeros: 0, fraction: 5 }))
            }
            other => panic!("unexpected item {:?}", other),
        },
        other => panic!("unexpected statement {:?}", other),
    }
}

#[test]
fn parse_errors() {
    assert_eq!(parse_error("FROM a"), "invalid statement");
    assert_eq!(parse_error("SELECT 1 +"), "unexpected end of input, expect expression");
    assert_eq!(parse_error("SELECT (1"), "unexpected end of input, expect )");
    assert_eq!(parse_error("SELECT (1 2"), "invalid token 2, expect )");
    assert_eq!(parse_error("SELECT a GROUP a"), "expect keyword BY of GROUP BY");
    assert_eq!(parse_error("SELECT a ORDER a"), "expect keyword BY of ORDER BY");
    assert_eq!(parse_error("SELECT a LIMIT x"), "invalid token x, expect integer");
    assert_eq!(parse_error("SELECT a TABLE"), "invalid keyword TABLE, expect FROM");
    assert_eq!(parse_error("SELECT a b c"), "invalid token c, expect keyword FROM");
    assert_eq!(parse_error("SELECT FROM"), "invalid keyword FROM expect expression");
    assert_eq!(parse_error("SELECT a.1"), "invalid token 1, expect identifier");
    assert_eq!(parse_error("SELECT f(1 2)"), "invalid token 2, expect , or )");
    let tokens = tokenize("SELECT a\nFROM").unwrap();
    let error = parse(&tokens).unwrap_err();
    assert_eq!(error.message, "unexpected end of input, expect expression");
    assert_eq!(
        error.to_string(),
        "error unexpected end of input, expect expression as Ln 2, Col 1 near \"SELECT a\nFROM\""
    );
}

#[test]
fn values_and_types_render() {
    assert_eq!(Int32::new(-42).to_string(), "-42");
    assert_eq!(Int32::new(i32::MIN).to_string(), "-2147483648");
    assert_eq!(Int32::new(7).to_string(), "7");
    assert_eq!(DataType::Varchar(32).to_string(), "Varchar(32)");
    assert_eq!(DataType::Float64.to_string(), "Float64");
    let text = "héllo".to_string();
    assert_eq!(Varchar::ref_string(&text).as_str(), "héllo");
    assert_eq!(Varchar::from_str("abc").to_string(), "abc");
    assert_eq!(Float64::from_bits(1.5f64.to_bits()).to_bits(), 1.5f64.to_bits());
}

fn table() -> SimpleMemoryDataSource {
    let schema = Schema::new(
        "t",
        vec![
            Column { name: "id".into(), data_type: DataType::Int32, nullable: false },
            Column { name: "name".into(), data_type: DataType::String, nullable: true },
        ],
    );
    let mut source = SimpleMemoryDataSource::new(schema);
    for (id, name) in [(1, Some("a")), (2, None), (3, Some("c"))] {
        let name = match name {
            Some(n) => OwnValue::String(n.to_string()),
            None => OwnValue::Null,
        };
        source.push_row(SimpleMemoryRow::new(vec![OwnValue::Int32(Int32::new(id)), name])).unwrap();
    }
    source
}

#[test]
fn schema_lookup() {
    let source = table();
    let schema = source.schema();
    assert_eq!(schema.column_count(), 2);
    assert_eq!(schema.column(1).name, "name");
    assert_eq!(schema.column_index("name"), Some(1));
    assert_eq!(schema.column_index("nope"), None);
    assert!(schema.contains_column_name("id"));
    assert!(!schema.contains_column_name("ID"));
    let names: Vec<&str> = schema.column_iter().map(|c| c.name.as_str()).collect();
    assert_eq!(names, vec!["id", "name"]);
}

#[test]
fn rows_that_do_not_fit_are_rejected() {
    let mut source = table();
    assert!(source.push_row(SimpleMemoryRow::new(vec![OwnValue::Int32(Int32::new(4))])).is_err());
    assert!(source
        .push_row(SimpleMemoryRow::new(vec![OwnValue::Null, OwnValue::Null]))
        .is_err());
    assert!(source
        .push_row(SimpleMemoryRow::new(vec![
            OwnValue::String("x".into()),
            OwnValue::Null
        ]))
        .is_err());
    assert_eq!(source.row_count(), 3);
}

#[test]
fn scan_projects_every_row_in_order() {
    let source = table();
    let rows = scan_all(&source, vec![1, 0]).unwrap();
    let values: Vec<Vec<OwnValue>> =
        rows.iter().map(|r| (0..r.len()).map(|i| r.get(i).clone()).collect()).collect();
    assert_eq!(
        values,
        vec![
            vec![OwnValue::String("a".into()), OwnValue::Int32(Int32::new(1))],
            vec![OwnValue::Null, OwnValue::Int32(Int32::new(2))],
            vec![OwnValue::String("c".into()), OwnValue::Int32(Int32::new(3))],
        ]
    );
    assert!(scan_all(&source, vec![]).is_err());
    assert!(scan_all(&source, vec![2]).is_err());
}

#[test]
fn scan_life_cycle() {
    let source = table();
    let mut scan = SeqScan::new(&source, vec![0]).unwrap();
    assert_eq!(scan.schema().columns.len(), 1);
    assert_eq!(scan.schema().columns[0].name, "id");
    assert!(scan.next().is_err());
    scan.open().unwrap();
    assert!(scan.open().is_err());
    assert_eq!(scan.next().unwrap().unwrap().get_int32(0), Int32::new(1));
    assert!(scan.batch().is_err());
    scan.close().unwrap();
    scan.close().unwrap();
    assert!(scan.next().is_err());
    let _ = ScanState::Closed;
}

#[test]
fn keyword_table_pairs_spelling_and_keyword() {
    let table = Keyword::map();
    assert_eq!(table.len(), 19);
    assert_eq!(table[0], ("SELECT", Keyword::SELECT));
    assert_eq!(table[18], ("HAVING", Keyword::HAVING));
    for (text, keyword) in table {
        assert_eq!(keyword.to_str(), text);
    }
}

#[test]
fn token_stream_prints_with_spaces() {
    let tokens = tokenize("SELECT abc, kk, 1 from dEf where cc>=12 AND s='x';").unwrap();
    assert_eq!(tokens.to_string(), "SELECT abc, kk, 1 FROM dEf WHERE cc >= 12 AND s = 'x';");
    assert_eq!(tokenize("").unwrap().to_string(), "");
}

#[test]
fn logical_scan_checks_its_projection() {
    let source = table();
    let plan = Scan::new(&source, vec!["name".to_string()], source.schema().clone()).unwrap();
    assert_eq!(plan.to_string(), "t");
    assert_eq!(plan.schema().columns.len(), 2);
    assert!(Scan::new(&source, vec![], source.schema().clone()).is_err());
    assert!(Scan::new(&source, vec!["age".to_string()], source.schema().clone()).is_err());
    let scan = SeqScan::new(&source, vec![1]).unwrap();
    assert_eq!(scan.to_string(), "t");
}

#[test]
fn nodes_are_located_at_their_first_token() {
    let sql = "SELECT 1,\n  (x + 2) * y FROM t";
    let tokens = tokenize(sql).unwrap();
    let statements = parse(&tokens).unwrap();
    let statement = &statements.statements[0];
    assert_eq!(statement.location().offset, 7);
    if let Statement::Select(select) = statement {
        if let simple_db::ast::SelectItem::Expression(e) = &select.items[1] {
            let l = e.location();
            assert_eq!((l.line_number, l.column_number, l.offset), (2, 4, 13));
            assert_eq!(e.locate(sql), "Ln 2, Col 4 near \"SELECT 1,\n  (x + 2) * y FROM t\"");
        } else {
            panic!("expected an expression");
        }
    } else {
        panic!("expected a select");
    }
}
