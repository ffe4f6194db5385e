use vstd::prelude::*;
use vstd::string::StringExecFns;
use crate::error::CommandError;

verus! {

/// How one character of a name is written between quotes `q`: the quote
/// character is doubled, every other character stands as it is.
pub open spec fn escaped_char(c: char, q: char) -> Seq<char> {
    if c == q {
        seq![q, q]
    } else {
        seq![c]
    }
}

/// The text of `name` between quotes `q`, without the enclosing quotes.
pub open spec fn escaped(name: Seq<char>, q: char) -> Seq<char>
    decreases name.len(),
{
    if name.len() == 0 {
        Seq::empty()
    } else {
        escaped_char(name[0], q) + escaped(name.subrange(1, name.len() as int), q)
    }
}

/// `name` enclosed in quotes `q`, each `q` inside it doubled.
pub open spec fn enclosed(name: Seq<char>, q: char) -> Seq<char> {
    seq![q] + escaped(name, q) + seq![q]
}

/// `name` as a double-quoted SQL identifier.
pub open spec fn quoted(name: Seq<char>) -> Seq<char> {
    enclosed(name, '"')
}

/// `text` as a single-quoted SQL string literal.
pub open spec fn string_literal(text: Seq<char>) -> Seq<char> {
    enclosed(text, '\'')
}

/// Reads the rest of a quoted identifier whose opening quote is already
/// consumed, as an SQL lexer does: a doubled quote is one quote character of
/// the name, a single quote ends it. Gives the name and what follows it.
pub open spec fn read_quoted_rest(s: Seq<char>) -> Option<(Seq<char>, Seq<char>)>
    decreases s.len(),
{
    if s.len() == 0 {
        None
    } else if s[0] == '"' {
        if s.len() >= 2 && s[1] == '"' {
            match read_quoted_rest(s.subrange(2, s.len() as int)) {
                Some((name, rest)) => Some((seq!['"'] + name, rest)),
                None => None,
            }
        } else {
            Some((Seq::empty(), s.subrange(1, s.len() as int)))
        }
    } else {
        match read_quoted_rest(s.subrange(1, s.len() as int)) {
            Some((name, rest)) => Some((seq![s[0]] + name, rest)),
            None => None,
        }
    }
}

/// Reads a quoted identifier at the start of `s`.
pub open spec fn read_quoted(s: Seq<char>) -> Option<(Seq<char>, Seq<char>)> {
    if s.len() > 0 && s[0] == '"' {
        read_quoted_rest(s.subrange(1, s.len() as int))
    } else {
        None
    }
}

/// The decimal digit for `d < 10`.
pub open spec fn digit_char(d: nat) -> char {
    if d == 0 { '0' }
    else if d == 1 { '1' }
    else if d == 2 { '2' }
    else if d == 3 { '3' }
    else if d == 4 { '4' }
    else if d == 5 { '5' }
    else if d == 6 { '6' }
    else if d == 7 { '7' }
    else if d == 8 { '8' }
    else { '9' }
}

/// The decimal numeral of `n`, without leading zeros.
pub open spec fn decimal(n: nat) -> Seq<char>
    decreases n,
{
    if n < 10 {
        seq![digit_char(n)]
    } else {
        decimal(n / 10) + seq![digit_char(n % 10)]
    }
}

pub open spec fn select_prefix() -> Seq<char> {
    "SELECT * FROM "@
}

/// The limit clause: a literal count, or the engine's `-1` sentinel for "all rows".
pub open spec fn limit_clause(limit: Option<i64>) -> Seq<char> {
    match limit {
        Some(n) => "LIMIT "@ + decimal(n as nat),
        None => "LIMIT -1"@,
    }
}

/// The offset clause: a literal offset, or nothing.
pub open spec fn offset_clause(offset: Option<i64>) -> Seq<char> {
    match offset {
        Some(n) => "OFFSET "@ + decimal(n as nat),
        None => Seq::empty(),
    }
}

/// What follows the table identifier in a scan query.
pub open spec fn clauses(limit: Option<i64>, offset: Option<i64>) -> Seq<char> {
    seq![' '] + limit_clause(limit) + seq![' '] + offset_clause(offset)
}

/// The full-table scan of `table`, paginated by `limit` and `offset`.
pub open spec fn scan_query(table: Seq<char>, limit: Option<i64>, offset: Option<i64>) -> Seq<char> {
    select_prefix() + quoted(table) + clauses(limit, offset)
}

/// A page request that may be formatted: no negative count.
pub open spec fn page_is_valid(limit: Option<i64>, offset: Option<i64>) -> bool {
    (limit is Some ==> limit->Some_0 >= 0) && (offset is Some ==> offset->Some_0 >= 0)
}

pub open spec fn negative_page_text() -> Seq<char> {
    "limit and offset must not be negative"@
}

proof fn lemma_escaped_push(name: Seq<char>, i: int, q: char)
    requires
        0 <= i < name.len(),
    ensures
        escaped(name.subrange(0, i + 1), q) == escaped(name.subrange(0, i), q) + escaped_char(name[i], q),
    decreases i,
{
    let a = name.subrange(0, i + 1);
    let b = name.subrange(0, i);
    if i == 0 {
        assert(b =~= Seq::<char>::empty());
        assert(a.subrange(1, a.len() as int) =~= Seq::<char>::empty());
        assert(escaped(a, q) == escaped_char(a[0], q) + escaped(a.subrange(1, a.len() as int), q));
        assert(escaped(a, q) =~= escaped(b, q) + escaped_char(name[i], q));
    } else {
        let tail = name.subrange(1, name.len() as int);
        lemma_escaped_push(tail, i - 1, q);
        assert(a.subrange(1, a.len() as int) =~= tail.subrange(0, i));
        assert(b.subrange(1, b.len() as int) =~= tail.subrange(0, i - 1));
        assert(escaped(a, q) == escaped_char(a[0], q) + escaped(a.subrange(1, a.len() as int), q));
        assert(escaped(b, q) == escaped_char(b[0], q) + escaped(b.subrange(1, b.len() as int), q));
        assert(escaped(a, q) =~= escaped(b, q) + escaped_char(name[i], q));
    }
}

/// Writes `name` between quotes `qc`, doubling each `qc` in it; `q` and `qq`
/// are the quote once and twice.
fn enclose(name: &str, qc: char, q: &str, qq: &str) -> (r: String)
    requires
        q@ == seq![qc],
        qq@ == seq![qc, qc],
    ensures
        r@ == enclosed(name@, qc),
{
    let n = name.unicode_len();
    let mut out = String::from_str(q);
    proof {
        assert(name@.subrange(0, 0) =~= Seq::<char>::empty());
    }
    let mut i: usize = 0;
    while i < n
        invariant
            n == name@.len(),
            i <= n,
            q@ == seq![qc],
            qq@ == seq![qc, qc],
            out@ == seq![qc] + escaped(name@.subrange(0, i as int), qc),
        decreases n - i,
    {
        let c = name.get_char(i);
        proof {
            lemma_escaped_push(name@, i as int, qc);
        }
        if c == qc {
            out.append(qq);
        } else {
            out.append(name.substring_char(i, i + 1));
            assert(name@.subrange(i as int, i + 1) =~= seq![c]);
        }
        i = i + 1;
        assert(out@ =~= seq![qc] + escaped(name@.subrange(0, i as int), qc));
    }
    out.append(q);
    proof {
        assert(name@.subrange(0, n as int) =~= name@);
    }
    assert(out@ =~= enclosed(name@, qc));
    out
}

/// Writes `name` as a double-quoted identifier, doubling each double quote in it.
pub fn quote_identifier(name: &str) -> (r: String)
    ensures
        r@ == quoted(name@),
{
    proof {
        reveal_strlit("\"");
        reveal_strlit("\"\"");
        assert("\""@ =~= seq!['"']);
        assert("\"\""@ =~= seq!['"', '"']);
    }
    enclose(name, '"', "\"", "\"\"")
}

/// Writes `text` as a single-quoted string literal, doubling each single quote in it.
pub fn quote_literal(text: &str) -> (r: String)
    ensures
        r@ == string_literal(text@),
{
    proof {
        reveal_strlit("'");
        reveal_strlit("''");
        assert("'"@ =~= seq!['\'']);
        assert("''"@ =~= seq!['\'', '\'']);
    }
    enclose(text, '\'', "'", "''")
}

/// The numeral of one decimal digit.
fn digit_text(d: u64) -> (r: &'static str)
    requires
        d < 10,
    ensures
        r@ == seq![digit_char(d as nat)],
{
    if d == 0 {
        proof { reveal_strlit("0"); }
        "0"
    } else if d == 1 {
        proof { reveal_strlit("1"); }
        "1"
    } else if d == 2 {
        proof { reveal_strlit("2"); }
        "2"
    } else if d == 3 {
        proof { reveal_strlit("3"); }
        "3"
    } else if d == 4 {
        proof { reveal_strlit("4"); }
        "4"
    } else if d == 5 {
        proof { reveal_strlit("5"); }
        "5"
    } else if d == 6 {
        proof { reveal_strlit("6"); }
        "6"
    } else if d == 7 {
        proof { reveal_strlit("7"); }
        "7"
    } else if d == 8 {
        proof { reveal_strlit("8"); }
        "8"
    } else {
        proof { reveal_strlit("9"); }
        "9"
    }
}

/// Appends the decimal numeral of `n` to `out`.
pub fn push_decimal(out: &mut String, n: u64)
    ensures
        final(out)@ == old(out)@ + decimal(n as nat),
    decreases n,
{
    if n >= 10 {
        push_decimal(out, n / 10);
    }
    out.append(digit_text(n % 10));
    assert(final(out)@ =~= old(out)@ + decimal(n as nat));
}

/// Composes the scan query for `table`. A negative limit or offset is refused
/// before anything is formatted.
pub fn build_scan(table: &str, limit: Option<i64>, offset: Option<i64>) -> (r: Result<String, CommandError>)
    ensures
        page_is_valid(limit, offset) ==> r is Ok && r->Ok_0@ == scan_query(table@, limit, offset),
        !page_is_valid(limit, offset) ==> r is Err && r->Err_0 is Other
            && r->Err_0->Other_0@ == negative_page_text(),
{
    let bad_limit = match limit {
        Some(l) => l < 0,
        None => false,
    };
    let bad_offset = match offset {
        Some(o) => o < 0,
        None => false,
    };
    if bad_limit || bad_offset {
        return Err(CommandError::Other(String::from_str("limit and offset must not be negative")));
    }
    let mut q = String::from_str("SELECT * FROM ");
    let ident = quote_identifier(table);
    q.append(ident.as_str());
    q.append(" ");
    proof { reveal_strlit(" "); }
    match limit {
        Some(l) => {
            q.append("LIMIT ");
            push_decimal(&mut q, l as u64);
        },
        None => {
            q.append("LIMIT -1");
        },
    }
    q.append(" ");
    match offset {
        Some(o) => {
            q.append("OFFSET ");
            push_decimal(&mut q, o as u64);
        },
        None => {},
    }
    assert(q@ =~= scan_query(table@, limit, offset));
    Ok(q)
}

/// The catalog query that lists the columns a `SELECT *` on `table` yields,
/// in positional order: every column but the hidden ones of virtual tables.
pub open spec fn columns_query(table: Seq<char>) -> Seq<char> {
    "SELECT name FROM pragma_table_xinfo("@ + string_literal(table) + ") WHERE hidden <> 1"@
}

/// Composes the catalog query for the column names of `table`.
pub fn build_columns_query(table: &str) -> (r: String)
    ensures
        r@ == columns_query(table@),
{
    let mut q = String::from_str("SELECT name FROM pragma_table_xinfo(");
    let lit = quote_literal(table);
    q.append(lit.as_str());
    q.append(") WHERE hidden <> 1");
    q
}

proof fn lemma_read_escaped(name: Seq<char>, rest: Seq<char>)
    requires
        rest.len() == 0 || rest[0] != '"',
    ensures
        read_quoted_rest(escaped(name, '\"') + seq!['"'] + rest) == Some((name, rest)),
    decreases name.len(),
{
    let s = escaped(name, '\"') + seq!['"'] + rest;
    if name.len() == 0 {
        assert(s =~= seq!['"'] + rest);
        assert(s.subrange(1, s.len() as int) =~= rest);
        assert(name =~= Seq::<char>::empty());
    } else {
        let tail = name.subrange(1, name.len() as int);
        lemma_read_escaped(tail, rest);
        let t = escaped(tail, '\"') + seq!['"'] + rest;
        if name[0] == '"' {
            assert(s =~= seq!['"', '"'] + t);
            assert(s.subrange(2, s.len() as int) =~= t);
        } else {
            assert(s =~= seq![name[0]] + t);
            assert(s.subrange(1, s.len() as int) =~= t);
        }
        assert(name =~= seq![name[0]] + tail);
    }
}

/// Whatever the table name, the scan query begins with `SELECT * FROM `, then
/// an identifier that an SQL lexer reads back as exactly that name, then the
/// pagination clauses and nothing else.
pub proof fn lemma_scan_reads_back_table(table: Seq<char>, limit: Option<i64>, offset: Option<i64>)
    ensures
        scan_query(table, limit, offset).subrange(0, select_prefix().len() as int) == select_prefix(),
        read_quoted(scan_query(table, limit, offset).subrange(
            select_prefix().len() as int,
            scan_query(table, limit, offset).len() as int,
        )) == Some((table, clauses(limit, offset))),
{
    let q = scan_query(table, limit, offset);
    let p = select_prefix().len() as int;
    let c = clauses(limit, offset);
    assert(q.subrange(0, p) =~= select_prefix());
    let s = q.subrange(p, q.len() as int);
    assert(s =~= seq!['"'] + (escaped(table, '\"') + seq!['"'] + c));
    assert(c[0] == ' ');
    lemma_read_escaped(table, c);
    assert(s.subrange(1, s.len() as int) =~= escaped(table, '\"') + seq!['"'] + c);
}

/// The page shapes of a scan: no limit asks the engine for every row through
/// the `-1` sentinel, a zero limit for none, and a limit `n` with an offset `k`
/// for the rows from `k` up to `k + n`.
pub proof fn lemma_page_clauses(table: Seq<char>, n: i64, k: i64)
    requires
        n >= 0,
        k >= 0,
    ensures
        scan_query(table, None, None) == select_prefix() + quoted(table) + " LIMIT -1 "@,
        scan_query(table, Some(0), None) == select_prefix() + quoted(table) + " LIMIT 0 "@,
        scan_query(table, Some(n), Some(k)) == select_prefix() + quoted(table) + " LIMIT "@
            + decimal(n as nat) + " OFFSET "@ + decimal(k as nat),
{
    reveal_strlit(" LIMIT -1 ");
    reveal_strlit("LIMIT -1");
    reveal_strlit(" LIMIT 0 ");
    reveal_strlit("LIMIT ");
    reveal_strlit(" LIMIT ");
    reveal_strlit("OFFSET ");
    reveal_strlit(" OFFSET ");
    assert(decimal(0) == seq!['0']);
    assert(scan_query(table, None, None) =~= select_prefix() + quoted(table) + " LIMIT -1 "@);
    assert(scan_query(table, Some(0), None) =~= select_prefix() + quoted(table) + " LIMIT 0 "@);
    assert(scan_query(table, Some(n), Some(k)) =~= select_prefix() + quoted(table) + " LIMIT "@
        + decimal(n as nat) + " OFFSET "@ + decimal(k as nat));
}

} // verus!
