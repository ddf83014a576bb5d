use sakila::tool::{
    check_query, extract_sql, format_results, trimmed, Field, QueryResult, Row, Scalar, ToolError,
};

fn int_row(name: &str, v: i64) -> Row {
    Row { fields: vec![Field { name: name.to_string(), value: Scalar::Integer(v) }] }
}

#[test]
fn extract_finds_first_tagged_query() {
    let text = "Let me check.\n<sql>\n  SELECT COUNT(*) FROM actor  \n</sql> then <sql>SELECT 2</sql>";
    assert_eq!(extract_sql(text), Some("SELECT COUNT(*) FROM actor".to_string()));
}

#[test]
fn extract_without_tag_is_none() {
    assert_eq!(extract_sql("There are 200 actors."), None);
    assert_eq!(extract_sql("<sql>SELECT 1"), None);
    assert_eq!(extract_sql("</sql>SELECT 1<sql>"), None);
}

#[test]
fn extract_spans_lines_and_stops_at_first_close() {
    assert_eq!(extract_sql("a<sql>SELECT\n1</sql>b</sql>"), Some("SELECT\n1".to_string()));
    assert_eq!(extract_sql("<sql></sql>"), Some(String::new()));
}

#[test]
fn extract_tag_is_case_sensitive() {
    assert_eq!(extract_sql("<SQL>SELECT 1</SQL>"), None);
}

#[test]
fn writing_statements_are_refused_alike() {
    assert_eq!(check_query("  delete from film"), Err(ToolError::Disallowed));
    assert_eq!(check_query("DROP TABLE x"), Err(ToolError::Disallowed));
    assert_eq!(check_query("\n\tUpdate film SET title = 'x'"), Err(ToolError::Disallowed));
    assert_eq!(check_query("insert into actor values (1)"), Err(ToolError::Disallowed));
    assert_eq!(check_query("  delete from film"), check_query("DROP TABLE x"));
}

#[test]
fn reading_statements_pass() {
    assert_eq!(check_query("SELECT * FROM film LIMIT 1"), Ok(()));
    assert_eq!(check_query("  select title from film"), Ok(()));
    assert_eq!(check_query(""), Ok(()));
}

#[test]
fn disallowed_error_text() {
    assert_eq!(ToolError::Disallowed.message(), "Query not allowed: only SELECT");
    assert_eq!(ToolError::Query { message: "no such table: x".to_string() }.message(), "no such table: x");
}

#[test]
fn empty_result_has_fixed_text() {
    assert_eq!(format_results(&QueryResult { rows: vec![] }), "No results found.");
}

#[test]
fn single_value_renders_one_line() {
    let r = QueryResult { rows: vec![int_row("COUNT(*)", 200)] };
    assert_eq!(format_results(&r), "Result: 200");
}

#[test]
fn single_text_value_is_json_quoted() {
    let r = QueryResult {
        rows: vec![Row {
            fields: vec![Field { name: "title".to_string(), value: Scalar::Text("ACE \"GOLD\"".to_string()) }],
        }],
    };
    assert_eq!(format_results(&r), "Result: \"ACE \\\"GOLD\\\"\"");
}

#[test]
fn single_values_of_other_kinds() {
    let one = |v: Scalar| QueryResult {
        rows: vec![Row { fields: vec![Field { name: "v".to_string(), value: v }] }],
    };
    assert_eq!(format_results(&one(Scalar::Integer(-42))), "Result: -42");
    assert_eq!(format_results(&one(Scalar::Real("4.99".to_string()))), "Result: 4.99");
    assert_eq!(format_results(&one(Scalar::Boolean(true))), "Result: true");
    assert_eq!(format_results(&one(Scalar::Null)), "Result: null");
    assert_eq!(format_results(&one(Scalar::Integer(i64::MIN))), "Result: -9223372036854775808");
}

#[test]
fn twelve_rows_list_ten_and_note_the_rest() {
    let rows: Vec<Row> = (1..=12).map(|i| int_row("id", i)).collect();
    let text = format_results(&QueryResult { rows });
    let lines: Vec<&str> = text.lines().collect();
    assert_eq!(lines[0], "Results (12 rows):");
    let row_lines: Vec<&&str> = lines.iter().filter(|l| l.contains(". id: ")).collect();
    assert_eq!(row_lines.len(), 10);
    assert_eq!(lines[1], "1. id: 1");
    assert_eq!(lines[10], "10. id: 10");
    assert_eq!(lines[11], "... and 2 more");
    assert_eq!(lines.len(), 12);
}

#[test]
fn listing_joins_fields_with_commas() {
    let r = QueryResult {
        rows: vec![
            Row {
                fields: vec![
                    Field { name: "first_name".to_string(), value: Scalar::Text("PENELOPE".to_string()) },
                    Field { name: "actor_id".to_string(), value: Scalar::Integer(1) },
                    Field { name: "note".to_string(), value: Scalar::Null },
                ],
            },
            Row {
                fields: vec![Field { name: "first_name".to_string(), value: Scalar::Text("NICK".to_string()) }],
            },
        ],
    };
    assert_eq!(
        format_results(&r),
        "Results (2 rows):\n1. first_name: PENELOPE, actor_id: 1, note: NULL\n2. first_name: NICK\n"
    );
}

#[test]
fn one_row_of_two_columns_is_a_listing() {
    let r = QueryResult {
        rows: vec![Row {
            fields: vec![
                Field { name: "a".to_string(), value: Scalar::Boolean(false) },
                Field { name: "b".to_string(), value: Scalar::Real("0.5".to_string()) },
            ],
        }],
    };
    assert_eq!(format_results(&r), "Results (1 rows):\n1. a: false, b: 0.5\n");
}

#[test]
fn exactly_ten_rows_have_no_note() {
    let rows: Vec<Row> = (0..10).map(|i| int_row("n", i)).collect();
    let text = format_results(&QueryResult { rows });
    assert!(!text.contains("more"));
    assert_eq!(text.lines().count(), 11);
}

#[test]
fn unicode_whitespace_is_trimmed() {
    assert_eq!(extract_sql("<sql>\u{3000}\u{A0}SELECT 1\u{2029}</sql>"), Some("SELECT 1".to_string()));
    assert_eq!(check_query("\u{2003}drop table film"), Err(ToolError::Disallowed));
}

#[test]
fn control_characters_are_escaped_in_a_lone_value() {
    let r = QueryResult {
        rows: vec![Row {
            fields: vec![Field { name: "t".to_string(), value: Scalar::Text("a\nb\u{1}\\".to_string()) }],
        }],
    };
    assert_eq!(format_results(&r), "Result: \"a\\nb\\u0001\\\\\"");
}

#[test]
fn trimmed_matches_std_trim() {
    for s in ["", "   ", " a b ", "\u{3000}x\u{85}", "\t\n\r\u{2028}y", "no-space", "\u{200B}z"] {
        assert_eq!(trimmed(s), s.trim());
    }
    assert_eq!(trimmed("\u{A0} SELECT 1 \u{202F}"), "SELECT 1");
}
