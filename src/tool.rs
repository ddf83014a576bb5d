//! The SQL tool: finding a query in model output, screening it, and rendering
//! what the data store returned.
use vstd::prelude::*;
use crate::text::{append_int, append_nat, digit_char, has_prefix, int_text, nat_text};

verus! {

/// The pattern of a query embedded in model output: the first `<sql>...</sql>` region.
pub const SQL_TAG_PATTERN: &'static str = "(?s)<sql>(.*?)</sql>";

/// Characters with the Unicode White_Space property, the whitespace of `char::is_whitespace`.
pub open spec fn is_white_space(c: char) -> bool {
    let u = c as u32;
    (0x9 <= u <= 0xD) || u == 0x20 || u == 0x85 || u == 0xA0 || u == 0x1680 || (0x2000 <= u
        <= 0x200A) || u == 0x2028 || u == 0x2029 || u == 0x202F || u == 0x205F || u == 0x3000
}

/// `s` without its leading whitespace.
pub open spec fn trim_start_of(s: Seq<char>) -> Seq<char>
    decreases s.len(),
{
    if s.len() > 0 && is_white_space(s[0]) {
        trim_start_of(s.drop_first())
    } else {
        s
    }
}

/// `s` without its trailing whitespace.
pub open spec fn trim_end_of(s: Seq<char>) -> Seq<char>
    decreases s.len(),
{
    if s.len() > 0 && is_white_space(s.last()) {
        trim_end_of(s.drop_last())
    } else {
        s
    }
}

/// `s` without leading and trailing whitespace, as `str::trim` returns it.
pub open spec fn trim_of(s: Seq<char>) -> Seq<char> {
    trim_end_of(trim_start_of(s))
}

/// What `str::to_uppercase` returns.
pub uninterp spec fn upper_of(s: Seq<char>) -> Seq<char>;

/// A lower-case hexadecimal digit.
pub open spec fn hex_digit(d: nat) -> char {
    if d < 10 {
        digit_char(d)
    } else if d == 10 {
        'a'
    } else if d == 11 {
        'b'
    } else if d == 12 {
        'c'
    } else if d == 13 {
        'd'
    } else if d == 14 {
        'e'
    } else {
        'f'
    }
}

/// How a character stands inside a JSON string: quote and backslash escaped, control
/// characters by their short escape or as `\u00XX`, every other character as it is.
pub open spec fn json_escape_char(c: char) -> Seq<char> {
    let u = c as u32;
    if c == '"' {
        seq!['\\', '"']
    } else if c == '\\' {
        seq!['\\', '\\']
    } else if u == 0x8 {
        seq!['\\', 'b']
    } else if u == 0x9 {
        seq!['\\', 't']
    } else if u == 0xA {
        seq!['\\', 'n']
    } else if u == 0xC {
        seq!['\\', 'f']
    } else if u == 0xD {
        seq!['\\', 'r']
    } else if u < 0x20 {
        seq!['\\', 'u', '0', '0', hex_digit((u / 16) as nat), hex_digit((u % 16) as nat)]
    } else {
        seq![c]
    }
}

/// Each character of `s` as it stands inside a JSON string.
pub open spec fn json_escaped(s: Seq<char>) -> Seq<char>
    decreases s.len(),
{
    if s.len() == 0 {
        Seq::empty()
    } else {
        json_escaped(s.drop_last()) + json_escape_char(s.last())
    }
}

/// What serde_json prints for a JSON string holding `s`: `s` escaped, between quotes.
pub open spec fn json_string_of(s: Seq<char>) -> Seq<char> {
    seq!['"'] + json_escaped(s) + seq!['"']
}

fn white_space(c: char) -> (r: bool)
    ensures
        r == is_white_space(c),
{
    let u = c as u32;
    (0x9 <= u && u <= 0xD) || u == 0x20 || u == 0x85 || u == 0xA0 || u == 0x1680 || (0x2000 <= u
        && u <= 0x200A) || u == 0x2028 || u == 0x2029 || u == 0x202F || u == 0x205F || u == 0x3000
}

/// `s` without leading and trailing whitespace, as `str::trim` gives it.
pub fn trimmed(s: &str) -> (r: &str)
    ensures
        r@ == trim_of(s@),
{
    let n = s.unicode_len();
    let mut i: usize = 0;
    assert(s@.subrange(0, n as int) =~= s@);
    while i < n && white_space(s.get_char(i))
        invariant
            n == s@.len(),
            i <= n,
            trim_start_of(s@) == trim_start_of(s@.subrange(i as int, n as int)),
        decreases n - i,
    {
        assert(s@.subrange(i as int, n as int).drop_first() =~= s@.subrange(i + 1, n as int));
        i = i + 1;
    }
    let ghost front = s@.subrange(i as int, n as int);
    assert(front.len() > 0 ==> front[0] == s@[i as int]);
    assert(trim_start_of(s@) == front);
    let mut j: usize = n;
    while j > i && white_space(s.get_char(j - 1))
        invariant
            n == s@.len(),
            i <= j <= n,
            front == s@.subrange(i as int, n as int),
            trim_end_of(front) == trim_end_of(s@.subrange(i as int, j as int)),
        decreases j,
    {
        assert(s@.subrange(i as int, j as int).drop_last() =~= s@.subrange(i as int, j - 1));
        j = j - 1;
    }
    let ghost rest = s@.subrange(i as int, j as int);
    assert(rest.len() > 0 ==> rest.last() == s@[j - 1]);
    assert(trim_end_of(rest) == rest);
    s.substring_char(i, j)
}

/// Relies on `str::to_uppercase`: the upper-case form of each character.
#[verifier::external_body]
fn uppercased(s: &str) -> (r: String)
    ensures
        r@ == upper_of(s@),
{
    s.to_uppercase()
}

/// Relies on serde_json's `Display` for `Value::String`: the string between quotes, with
/// `"` and `\\` escaped and control characters written as escapes (ser.rs, `ESCAPE`).
#[verifier::external_body]
fn json_string(s: &str) -> (r: String)
    ensures
        r@ == json_string_of(s@),
{
    serde_json::Value::String(s.to_string()).to_string()
}

/// Whether `p` occurs in `t` starting at index `i`.
pub open spec fn occurs_at(t: Seq<char>, p: Seq<char>, i: int) -> bool {
    0 <= i && i + p.len() <= t.len() && t.subrange(i, i + p.len()) == p
}

/// The first index at or after `from` where `p` occurs in `t`.
pub open spec fn find_from(t: Seq<char>, p: Seq<char>, from: int) -> Option<int>
    decreases t.len() + 1 - from,
{
    if from < 0 || from + p.len() > t.len() {
        None
    } else if occurs_at(t, p, from) {
        Some(from)
    } else {
        find_from(t, p, from + 1)
    }
}

/// The text between the first `<sql>` and the first `</sql>` after it, if both are there.
pub open spec fn sql_region(t: Seq<char>) -> Option<Seq<char>> {
    match find_from(t, "<sql>"@, 0) {
        None => None,
        Some(i) => match find_from(t, "</sql>"@, i + "<sql>"@.len()) {
            None => None,
            Some(j) => Some(t.subrange(i + "<sql>"@.len(), j)),
        },
    }
}

/// The query that model output asks to run: its tagged region, trimmed.
pub open spec fn extracted_query(t: Seq<char>) -> Option<Seq<char>> {
    match sql_region(t) {
        None => None,
        Some(q) => Some(trim_of(q)),
    }
}

/// Relies on regex: for `SQL_TAG_PATTERN`, the first capture group of the leftmost
/// match, which with a lazy `.*?` under `(?s)` is exactly `sql_region(text)`.
#[verifier::external_body]
fn first_sql_capture(pattern: &str, text: &str) -> (r: Option<String>)
    requires
        pattern@ == SQL_TAG_PATTERN@,
    ensures
        r is Some <==> sql_region(text@) is Some,
        r is Some ==> r->0@ == sql_region(text@)->0,
{
    regex::Regex::new(pattern).ok().and_then(
        |re| re.captures(text).and_then(|c| c.get(1)).map(|m| m.as_str().to_string()),
    )
}

/// The query embedded in model output, trimmed; `None` when there is no tagged region.
pub fn extract_sql(text: &str) -> (r: Option<String>)
    ensures
        r is Some <==> extracted_query(text@) is Some,
        r is Some ==> r->0@ == extracted_query(text@)->0,
{
    match first_sql_capture(SQL_TAG_PATTERN, text) {
        None => None,
        Some(region) => Some(String::from_str(trimmed(region.as_str()))),
    }
}

/// Why a query was not run, or why running it failed.
#[derive(Clone, Debug, PartialEq, Eq)]
pub enum ToolError {
    /// The statement would modify the data store.
    Disallowed,
    /// The data store refused or failed the query.
    Query { message: String },
}

/// The words that statements which modify the data store begin with.
pub open spec fn is_writing_statement(folded: Seq<char>) -> bool {
    "DROP"@.is_prefix_of(folded) || "DELETE"@.is_prefix_of(folded) || "UPDATE"@.is_prefix_of(
        folded,
    ) || "INSERT"@.is_prefix_of(folded)
}

/// The text shown for a tool error.
pub open spec fn tool_error_text(e: ToolError) -> Seq<char> {
    match e {
        ToolError::Disallowed => "Query not allowed: only SELECT"@,
        ToolError::Query { message } => message@,
    }
}

impl ToolError {
    /// The text shown for the error.
    pub fn message(&self) -> (r: String)
        ensures
            r@ == tool_error_text(*self),
    {
        match self {
            ToolError::Disallowed => String::from_str("Query not allowed: only SELECT"),
            ToolError::Query { message } => String::from_str(message.as_str()),
        }
    }
}

/// Whether an already trimmed and upper-cased statement begins with a writing keyword.
pub fn is_writing(folded: &str) -> (r: bool)
    ensures
        r == is_writing_statement(folded@),
{
    has_prefix(folded, "DROP") || has_prefix(folded, "DELETE") || has_prefix(folded, "UPDATE")
        || has_prefix(folded, "INSERT")
}

/// Screens a query before it reaches the data store: any statement that begins,
/// ignoring case and surrounding whitespace, with DROP, DELETE, UPDATE or INSERT
/// is refused.
pub fn check_query(query: &str) -> (r: Result<(), ToolError>)
    ensures
        r is Err <==> is_writing_statement(upper_of(trim_of(query@))),
        r is Err ==> r == Err::<(), ToolError>(ToolError::Disallowed),
{
    let folded = uppercased(trimmed(query));
    if is_writing(folded.as_str()) {
        Err(ToolError::Disallowed)
    } else {
        Ok(())
    }
}

/// One value of one column, typed per value as the data store handed it over.
#[derive(Clone, Debug, PartialEq)]
pub enum Scalar {
    Integer(i64),
    /// A floating-point value, held as its JSON text.
    Real(String),
    Text(String),
    Boolean(bool),
    Null,
}

/// A named column of a row.
#[derive(Clone, Debug, PartialEq)]
pub struct Field {
    pub name: String,
    pub value: Scalar,
}

/// One row of a result, its columns in the order the query produced them.
#[derive(Clone, Debug, PartialEq)]
pub struct Row {
    pub fields: Vec<Field>,
}

/// The rows a query returned; their number is the row count.
#[derive(Clone, Debug, PartialEq)]
pub struct QueryResult {
    pub rows: Vec<Row>,
}

/// How many rows a listing shows at most.
pub const MAX_LISTED_ROWS: usize = 10;

/// A value as JSON prints it, used for a lone value.
pub open spec fn scalar_json(v: Scalar) -> Seq<char> {
    match v {
        Scalar::Integer(n) => int_text(n as int),
        Scalar::Real(t) => t@,
        Scalar::Text(s) => json_string_of(s@),
        Scalar::Boolean(b) => if b {
            "true"@
        } else {
            "false"@
        },
        Scalar::Null => "null"@,
    }
}

/// A value as a listing prints it: text unquoted, a missing value as NULL.
pub open spec fn scalar_plain(v: Scalar) -> Seq<char> {
    match v {
        Scalar::Integer(n) => int_text(n as int),
        Scalar::Real(t) => t@,
        Scalar::Text(s) => s@,
        Scalar::Boolean(b) => if b {
            "true"@
        } else {
            "false"@
        },
        Scalar::Null => "NULL"@,
    }
}

/// `name: value`.
pub open spec fn field_text(f: Field) -> Seq<char> {
    f.name@ + ": "@ + scalar_plain(f.value)
}

/// The first `k` fields, joined by commas.
pub open spec fn fields_text(fs: Seq<Field>, k: nat) -> Seq<char>
    decreases k,
{
    if k == 0 {
        Seq::empty()
    } else if k == 1 {
        field_text(fs[0])
    } else {
        fields_text(fs, (k - 1) as nat) + ", "@ + field_text(fs[k - 1])
    }
}

/// The listing line of the row numbered `number` (counting from one).
pub open spec fn row_line(number: nat, row: Row) -> Seq<char> {
    nat_text(number) + ". "@ + fields_text(row.fields@, row.fields@.len()) + "\n"@
}

/// The listing lines of the first `n` rows.
pub open spec fn rows_text(rows: Seq<Row>, n: nat) -> Seq<char>
    decreases n,
{
    if n == 0 {
        Seq::empty()
    } else {
        rows_text(rows, (n - 1) as nat) + row_line(n, rows[n - 1])
    }
}

/// How many rows a listing of `count` rows shows.
pub open spec fn listed(count: nat) -> nat {
    if count < MAX_LISTED_ROWS {
        count
    } else {
        MAX_LISTED_ROWS as nat
    }
}

/// The text of a query result: a fixed line when it is empty, the value alone when
/// it is one row of one column, else a numbered listing of at most ten rows
/// followed by how many were left out.
pub open spec fn formatted(rows: Seq<Row>) -> Seq<char> {
    if rows.len() == 0 {
        "No results found."@
    } else if rows.len() == 1 && rows[0].fields@.len() == 1 {
        "Result: "@ + scalar_json(rows[0].fields@[0].value)
    } else {
        "Results ("@ + nat_text(rows.len()) + " rows):\n"@ + rows_text(rows, listed(rows.len()))
            + if rows.len() > MAX_LISTED_ROWS {
            "... and "@ + nat_text((rows.len() - MAX_LISTED_ROWS) as nat) + " more\n"@
        } else {
            Seq::empty()
        }
    }
}

fn append_json_value(out: &mut String, v: &Scalar)
    ensures
        final(out)@ == old(out)@ + scalar_json(*v),
{
    match v {
        Scalar::Integer(n) => append_int(out, *n),
        Scalar::Real(t) => out.append(t.as_str()),
        Scalar::Text(s) => {
            let quoted = json_string(s.as_str());
            out.append(quoted.as_str());
        },
        Scalar::Boolean(b) => if *b {
            out.append("true");
        } else {
            out.append("false");
        },
        Scalar::Null => out.append("null"),
    }
}

fn append_plain_value(out: &mut String, v: &Scalar)
    ensures
        final(out)@ == old(out)@ + scalar_plain(*v),
{
    match v {
        Scalar::Integer(n) => append_int(out, *n),
        Scalar::Real(t) => out.append(t.as_str()),
        Scalar::Text(s) => out.append(s.as_str()),
        Scalar::Boolean(b) => if *b {
            out.append("true");
        } else {
            out.append("false");
        },
        Scalar::Null => out.append("NULL"),
    }
}

fn append_row_line(out: &mut String, number: u64, row: &Row)
    ensures
        final(out)@ == old(out)@ + row_line(number as nat, *row),
{
    let ghost start = out@;
    append_nat(out, number);
    out.append(". ");
    let ghost head = out@;
    let n = row.fields.len();
    let mut k: usize = 0;
    while k < n
        invariant
            n == row.fields@.len(),
            k <= n,
            out@ == head + fields_text(row.fields@, k as nat),
        decreases n - k,
    {
        let f = &row.fields[k];
        if k > 0 {
            out.append(", ");
        }
        out.append(f.name.as_str());
        out.append(": ");
        append_plain_value(out, &f.value);
        proof {
            if k == 0 {
                assert(out@ =~= head + fields_text(row.fields@, 1));
            } else {
                assert(out@ =~= head + fields_text(row.fields@, (k + 1) as nat));
            }
        }
        k = k + 1;
    }
    out.append("\n");
    assert(out@ =~= start + row_line(number as nat, *row));
}

/// Renders a query result as the text handed back to the model.
pub fn format_results(result: &QueryResult) -> (r: String)
    ensures
        r@ == formatted(result.rows@),
{
    let count = result.rows.len();
    if count == 0 {
        return String::from_str("No results found.");
    }
    if count == 1 && result.rows[0].fields.len() == 1 {
        let mut out = String::from_str("Result: ");
        append_json_value(&mut out, &result.rows[0].fields[0].value);
        return out;
    }
    let mut out = String::from_str("Results (");
    append_nat(&mut out, count as u64);
    out.append(" rows):\n");
    let ghost head = out@;
    let shown = if count < MAX_LISTED_ROWS {
        count
    } else {
        MAX_LISTED_ROWS
    };
    let mut i: usize = 0;
    while i < shown
        invariant
            count == result.rows@.len(),
            shown == listed(count as nat),
            i <= shown,
            out@ == head + rows_text(result.rows@, i as nat),
        decreases shown - i,
    {
        append_row_line(&mut out, (i + 1) as u64, &result.rows[i]);
        assert(out@ =~= head + rows_text(result.rows@, (i + 1) as nat));
        i = i + 1;
    }
    if count > MAX_LISTED_ROWS {
        out.append("... and ");
        append_nat(&mut out, (count - MAX_LISTED_ROWS) as u64);
        out.append(" more\n");
    }
    assert(out@ =~= formatted(result.rows@));
    out
}

} // verus!
