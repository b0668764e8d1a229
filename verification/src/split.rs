//! Splitting query text into `;`-terminated statements.
//!
//! A `;` ends a statement only outside string literals (`'…'`, `"…"`),
//! quoted identifiers (`` `…` ``), line comments (`// …`) and nested block
//! comments (`/* … */`). Each statement is trimmed of surrounding
//! whitespace and empty statements are dropped; the text after the last
//! terminator is the remainder.
use vstd::prelude::*;

use crate::error::{CliError, EXIT_USAGE};
use crate::text::{all_space, is_whitespace, trim_end, trim_start, lemma_trim_space_prefix, chars_of, owned, string_of, trim, trim_bounds, blank, trimmed, is_blank, lemma_trim_idempotent};

verus! {

/// The views of a sequence of texts.
pub open spec fn views(texts: Seq<String>) -> Seq<Seq<char>> {
    texts.map_values(|t: String| t@)
}

pub open spec fn is_quote(c: char) -> bool {
    c == '\'' || c == '"' || c == '`'
}

/// Whether the character after position `i` exists and is `c`.
pub open spec fn next_is(s: Seq<char>, i: int, c: char) -> bool {
    i + 1 < s.len() && s[i + 1] == c
}

/// The text between `start` and `end`, trimmed, added to `acc` unless it is empty.
pub open spec fn add_statement(acc: Seq<Seq<char>>, s: Seq<char>, start: int, end: int) -> Seq<
    Seq<char>,
> {
    let statement = trim(s.subrange(start, end));
    if statement.len() > 0 {
        acc.push(statement)
    } else {
        acc
    }
}

/// One step of the scan at position `i` of `s`, in the lexical state given by
/// the open quote, whether a line comment is open, and the block-comment
/// nesting depth. Returns the next position, the next state, and whether the
/// character at `i` is a statement terminator.
pub open spec fn step(s: Seq<char>, i: int, quote: Option<char>, line_comment: bool, depth: nat) -> (
    int,
    Option<char>,
    bool,
    nat,
    bool,
) {
    let c = s[i];
    if line_comment {
        (i + 1, quote, c != '\n', depth, false)
    } else if depth > 0 {
        if c == '/' && next_is(s, i, '*') {
            (i + 2, quote, false, depth + 1, false)
        } else if c == '*' && next_is(s, i, '/') {
            (i + 2, quote, false, (depth - 1) as nat, false)
        } else {
            (i + 1, quote, false, depth, false)
        }
    } else if quote is Some {
        let delimiter = quote->0;
        if c == '\\' {
            (if i + 1 < s.len() { i + 2 } else { i + 1 }, quote, false, 0, false)
        } else if c == delimiter {
            if next_is(s, i, delimiter) && delimiter == '`' {
                (i + 2, quote, false, 0, false)
            } else {
                (i + 1, None, false, 0, false)
            }
        } else {
            (i + 1, quote, false, 0, false)
        }
    } else if is_quote(c) {
        (i + 1, Some(c), false, 0, false)
    } else if c == '/' && next_is(s, i, '/') {
        (i + 2, None, true, 0, false)
    } else if c == '/' && next_is(s, i, '*') {
        (i + 2, None, false, 1, false)
    } else {
        (i + 1, None, false, 0, c == ';')
    }
}

/// The scan of `s` from position `i` in the given lexical state, with the
/// current statement starting at `start` and the statements `acc` found so
/// far. Returns all statements and the start of the unterminated remainder.
pub open spec fn scan(
    s: Seq<char>,
    i: int,
    quote: Option<char>,
    line_comment: bool,
    depth: nat,
    start: int,
    acc: Seq<Seq<char>>,
) -> (Seq<Seq<char>>, int)
    decreases s.len() - i,
{
    if i < 0 || i >= s.len() {
        (acc, start)
    } else {
        let (j, q, l, d, terminator) = step(s, i, quote, line_comment, depth);
        if terminator {
            scan(s, j, q, l, d, i + 1, add_statement(acc, s, start, i))
        } else {
            scan(s, j, q, l, d, start, acc)
        }
    }
}

/// The complete statements of `s` and the text after the last terminator.
pub open spec fn split_spec(s: Seq<char>) -> (Seq<Seq<char>>, Seq<char>) {
    let (statements, start) = scan(s, 0, None, false, 0, 0, seq![]);
    (statements, s.subrange(start, s.len() as int))
}

/// What `split_complete` returns: the complete statements, followed by the
/// trimmed remainder when it is not blank and `accept_remainder` is set; an
/// unterminated non-blank remainder is an error otherwise.
pub open spec fn split_complete_spec(s: Seq<char>, accept_remainder: bool) -> Option<
    Seq<Seq<char>>,
> {
    let (statements, remainder) = split_spec(s);
    if is_blank(remainder) {
        Some(statements)
    } else if accept_remainder {
        Some(statements.push(trim(remainder)))
    } else {
        None
    }
}

/// Splits `source` into its complete statements and the remainder after
/// the last terminator. This never fails.
pub fn split_with_remainder(source: &str) -> (result: Result<(Vec<String>, String), CliError>)
    ensures
        result matches Ok((statements, remainder)) && (views(statements@), remainder@)
            == split_spec(source@),
{
    let chars = chars_of(source);
    let ghost s = source@;
    let mut statements: Vec<String> = Vec::new();
    let mut start: usize = 0;
    let mut index: usize = 0;
    let mut quote: Option<char> = None;
    let mut line_comment = false;
    let mut block_depth: usize = 0;
    assert(views(statements@) =~= Seq::<Seq<char>>::empty());
    while index < chars.len()
        invariant
            chars@ == s,
            start <= index <= s.len(),
            block_depth <= index,
            scan(s, index as int, quote, line_comment, block_depth as nat, start as int, views(statements@))
                == scan(s, 0, None, false, 0, 0, seq![]),
        decreases s.len() - index,
    {
        let c = chars[index];
        let has_next = index + 1 < chars.len();
        let next: char = if has_next { chars[index + 1] } else { ' ' };
        if line_comment {
            if c == '\n' {
                line_comment = false;
            }
        } else if block_depth > 0 {
            if c == '/' && has_next && next == '*' {
                block_depth += 1;
                index += 1;
            } else if c == '*' && has_next && next == '/' {
                block_depth -= 1;
                index += 1;
            }
        } else if let Some(delimiter) = quote {
            if c == '\\' {
                if has_next {
                    index += 1;
                }
            } else if c == delimiter {
                if has_next && next == delimiter && delimiter == '`' {
                    index += 1;
                } else {
                    quote = None;
                }
            }
        } else if c == '\'' || c == '"' || c == '`' {
            quote = Some(c);
        } else if c == '/' && has_next && next == '/' {
            line_comment = true;
            index += 1;
        } else if c == '/' && has_next && next == '*' {
            block_depth = 1;
            index += 1;
        } else if c == ';' {
            let ghost before = views(statements@);
            let (first, last) = trim_bounds(&chars, start, index);
            if first < last {
                let statement = string_of(&chars, first, last);
                statements.push(statement);
            }
            assert(views(statements@) == add_statement(before, s, start as int, index as int));
            start = index + 1;
        }
        index += 1;
    }
    let remainder = string_of(&chars, start, chars.len());
    Ok((statements, remainder))
}


/// Splits `source` into complete statements; a non-blank unterminated
/// remainder is appended trimmed when `accept_remainder` is set and is a
/// usage error otherwise.
pub fn split_complete(source: &str, accept_remainder: bool) -> (result: Result<Vec<String>, CliError>)
    ensures
        match split_complete_spec(source@, accept_remainder) {
            Some(statements) => result matches Ok(v) && views(v@) == statements,
            None => result matches Err(e) && e.code == EXIT_USAGE && e.message@
                == "unterminated query"@,
        },
{
    let (mut statements, remainder) = match split_with_remainder(source) {
        Ok(parts) => parts,
        Err(error) => return Err(error),
    };
    if !blank(remainder.as_str()) {
        if accept_remainder {
            let ghost before = views(statements@);
            statements.push(trimmed(remainder.as_str()));
            assert(views(statements@) == before.push(trim(remainder@)));
        } else {
            return Err(CliError::usage(owned("unterminated query")));
        }
    }
    Ok(statements)
}

/// The statements collected from `acc` on are `acc` followed by those the
/// scan finds itself.
proof fn lemma_scan_accumulates(
    s: Seq<char>,
    i: int,
    quote: Option<char>,
    line_comment: bool,
    depth: nat,
    start: int,
    acc: Seq<Seq<char>>,
)
    ensures
        scan(s, i, quote, line_comment, depth, start, acc).0 == acc + scan(
            s,
            i,
            quote,
            line_comment,
            depth,
            start,
            seq![],
        ).0,
        scan(s, i, quote, line_comment, depth, start, acc).1 == scan(
            s,
            i,
            quote,
            line_comment,
            depth,
            start,
            seq![],
        ).1,
    decreases s.len() - i,
{
    if i < 0 || i >= s.len() {
        assert(acc + Seq::<Seq<char>>::empty() == acc);
    } else {
        let (j, q, l, d, terminator) = step(s, i, quote, line_comment, depth);
        if terminator {
            let with_acc = add_statement(acc, s, start, i);
            let alone = add_statement(seq![], s, start, i);
            lemma_scan_accumulates(s, j, q, l, d, i + 1, with_acc);
            lemma_scan_accumulates(s, j, q, l, d, i + 1, alone);
            assert(with_acc == acc + alone);
        } else {
            lemma_scan_accumulates(s, j, q, l, d, start, acc);
        }
    }
}

/// The remainder never starts before the current statement, nor after the
/// end of the text; when it starts where the current statement does, no
/// statement was added.
proof fn lemma_scan_start(
    s: Seq<char>,
    i: int,
    quote: Option<char>,
    line_comment: bool,
    depth: nat,
    start: int,
    acc: Seq<Seq<char>>,
)
    requires
        0 <= start <= s.len(),
        start <= i,
    ensures
        start <= scan(s, i, quote, line_comment, depth, start, acc).1 <= s.len(),
        scan(s, i, quote, line_comment, depth, start, acc).1 == start ==> scan(
            s,
            i,
            quote,
            line_comment,
            depth,
            start,
            acc,
        ).0 == acc,
    decreases s.len() - i,
{
    if i < 0 || i >= s.len() {
    } else {
        let (j, q, l, d, terminator) = step(s, i, quote, line_comment, depth);
        if terminator {
            lemma_scan_start(s, j, q, l, d, i + 1, add_statement(acc, s, start, i));
        } else {
            lemma_scan_start(s, j, q, l, d, start, acc);
        }
    }
}

/// Once the scan of `s` has passed a terminator, scanning any extension
/// `s + t` reaches that terminator in the same way: it continues from the
/// start of the remainder, outside any literal or comment, with the same
/// statements.
proof fn lemma_scan_prefix(
    s: Seq<char>,
    t: Seq<char>,
    i: int,
    quote: Option<char>,
    line_comment: bool,
    depth: nat,
    start: int,
    acc: Seq<Seq<char>>,
)
    requires
        0 <= start <= i <= s.len(),
        scan(s, i, quote, line_comment, depth, start, acc).1 != start,
    ensures
        ({
            let (found, end) = scan(s, i, quote, line_comment, depth, start, acc);
            scan(s + t, i, quote, line_comment, depth, start, acc) == scan(
                s + t,
                end,
                None,
                false,
                0,
                end,
                found,
            )
        }),
    decreases s.len() - i,
{
    let whole = s + t;
    let (j, q, l, d, terminator) = step(s, i, quote, line_comment, depth);
    assert(whole[i] == s[i]);
    if terminator {
        assert(step(whole, i, quote, line_comment, depth) == step(s, i, quote, line_comment, depth));
        assert(whole.subrange(start, i) == s.subrange(start, i));
        let added = add_statement(acc, s, start, i);
        assert(j == i + 1 && q is None && !l && d == 0);
        assert(add_statement(acc, whole, start, i) == added);
        assert(scan(whole, i, quote, line_comment, depth, start, acc) == scan(whole, j, q, l, d, i + 1, added));
        assert(scan(s, i, quote, line_comment, depth, start, acc) == scan(s, j, q, l, d, i + 1, added));
        lemma_scan_start(s, j, q, l, d, i + 1, added);
        if scan(s, j, q, l, d, i + 1, added).1 != i + 1 {
            lemma_scan_prefix(s, t, j, q, l, d, i + 1, added);
        }
    } else {
        if i + 1 < s.len() {
            assert(whole[i + 1] == s[i + 1]);
            assert(step(whole, i, quote, line_comment, depth) == step(s, i, quote, line_comment, depth));
            assert(scan(whole, i, quote, line_comment, depth, start, acc) == scan(whole, j, q, l, d, start, acc));
            assert(scan(s, i, quote, line_comment, depth, start, acc) == scan(s, j, q, l, d, start, acc));
            lemma_scan_prefix(s, t, j, q, l, d, start, acc);
        } else {
            assert(j >= s.len());
            assert(scan(s, i, quote, line_comment, depth, start, acc) == scan(s, j, q, l, d, start, acc));
            assert(scan(s, j, q, l, d, start, acc) == (acc, start));
        }
    }
}

/// Scanning `prefix + rest` from inside `rest` gives the statements and the
/// (shifted) remainder start of scanning `rest` alone.
proof fn lemma_scan_shift(
    prefix: Seq<char>,
    rest: Seq<char>,
    i: int,
    quote: Option<char>,
    line_comment: bool,
    depth: nat,
    start: int,
    acc: Seq<Seq<char>>,
)
    requires
        0 <= start <= i,
    ensures
        ({
            let (found, end) = scan(rest, i, quote, line_comment, depth, start, acc);
            scan(prefix + rest, prefix.len() + i, quote, line_comment, depth, prefix.len() + start, acc)
                == (found, prefix.len() + end)
        }),
    decreases rest.len() - i,
{
    let whole = prefix + rest;
    let k = prefix.len() as int;
    if i >= rest.len() {
    } else {
        assert(whole[k + i] == rest[i]);
        if i + 1 < rest.len() {
            assert(whole[k + i + 1] == rest[i + 1]);
        }
        let (j, q, l, d, terminator) = step(rest, i, quote, line_comment, depth);
        let (wj, wq, wl, wd, wterminator) = step(whole, k + i, quote, line_comment, depth);
        assert(wj == k + j && wq == q && wl == l && wd == d && wterminator == terminator);
        if terminator {
            assert(whole.subrange(k + start, k + i) == rest.subrange(start, i));
            assert(add_statement(acc, whole, k + start, k + i) == add_statement(acc, rest, start, i));
            lemma_scan_shift(prefix, rest, j, q, l, d, i + 1, add_statement(acc, rest, start, i));
        } else {
            lemma_scan_shift(prefix, rest, j, q, l, d, start, acc);
        }
    }
}

/// Text split in two pieces is split as if it were whole. The
/// statements of `s + t` are those of `s`, followed by those of the
/// remainder of `s` joined to `t`; and the final remainder is the same.
/// The interactive loops rely on this when they keep only the remainder
/// of their input between lines.
pub proof fn lemma_split_append(s: Seq<char>, t: Seq<char>)
    ensures
        ({
            let (first, remainder) = split_spec(s);
            let (second, last_remainder) = split_spec(remainder + t);
            split_spec(s + t) == (first + second, last_remainder)
        }),
{
    let (found, end) = scan(s, 0, None, false, 0, 0, seq![]);
    lemma_scan_start(s, 0, None, false, 0, 0, seq![]);
    let remainder = s.subrange(end, s.len() as int);
    let rest = remainder + t;
    let whole = s + t;
    if end == 0 {
        assert(remainder == s);
        assert(found + split_spec(rest).0 == split_spec(rest).0);
    } else {
        lemma_scan_prefix(s, t, 0, None, false, 0, 0, seq![]);
        let prefix = s.subrange(0, end);
        assert(whole == prefix + rest);
        lemma_scan_shift(prefix, rest, 0, None, false, 0, 0, found);
        lemma_scan_accumulates(rest, 0, None, false, 0, 0, found);
        let (_, rest_end) = scan(rest, 0, None, false, 0, 0, seq![]);
        lemma_scan_start(rest, 0, None, false, 0, 0, seq![]);
        assert(whole.subrange(end + rest_end, whole.len() as int) == rest.subrange(
            rest_end,
            rest.len() as int,
        ));
    }
}

/// Every text in the sequence is non-empty and already trimmed.
pub open spec fn all_trimmed(texts: Seq<Seq<char>>) -> bool {
    forall|k: int| 0 <= k < texts.len() ==> #[trigger] texts[k].len() > 0 && trim(texts[k]) == texts[k]
}

proof fn lemma_scan_statements_trimmed(
    s: Seq<char>,
    i: int,
    quote: Option<char>,
    line_comment: bool,
    depth: nat,
    start: int,
    acc: Seq<Seq<char>>,
)
    requires
        0 <= start <= i,
        all_trimmed(acc),
    ensures
        all_trimmed(scan(s, i, quote, line_comment, depth, start, acc).0),
    decreases s.len() - i,
{
    if i < 0 || i >= s.len() {
    } else {
        let (j, q, l, d, terminator) = step(s, i, quote, line_comment, depth);
        if terminator {
            let added = add_statement(acc, s, start, i);
            lemma_trim_idempotent(s.subrange(start, i));
            assert forall|k: int| 0 <= k < added.len() implies #[trigger] added[k].len() > 0 && trim(added[k]) == added[k] by {
                if k < acc.len() {
                    assert(added[k] == acc[k]);
                }
            }
            lemma_scan_statements_trimmed(s, j, q, l, d, i + 1, added);
        } else {
            lemma_scan_statements_trimmed(s, j, q, l, d, start, acc);
        }
    }
}

/// Every statement that the splitter returns is non-empty and
/// already trimmed of surrounding whitespace.
pub proof fn lemma_split_statements_trimmed(s: Seq<char>)
    ensures
        all_trimmed(split_spec(s).0),
{
    lemma_scan_statements_trimmed(s, 0, None, false, 0, 0, seq![]);
}

proof fn lemma_scan_without_terminator(
    s: Seq<char>,
    i: int,
    quote: Option<char>,
    line_comment: bool,
    depth: nat,
    start: int,
    acc: Seq<Seq<char>>,
)
    requires
        forall|j: int| 0 <= j < s.len() ==> #[trigger] s[j] != ';',
    ensures
        scan(s, i, quote, line_comment, depth, start, acc) == (acc, start),
    decreases s.len() - i,
{
    if 0 <= i < s.len() {
        assert(s[i] != ';');
        let (j, q, l, d, terminator) = step(s, i, quote, line_comment, depth);
        assert(!terminator);
        lemma_scan_without_terminator(s, j, q, l, d, start, acc);
    }
}

/// What the splitter returns of every text (it never fails): the
/// remainder is the end of the text; every statement is non-empty and
/// trimmed; the remainder holds no further terminator, so splitting it
/// again gives no statement and the same remainder; and a text without
/// `;` is all remainder.
pub proof fn lemma_split_remainder(s: Seq<char>)
    ensures
        split_spec(s).1.len() <= s.len(),
        s.subrange(s.len() - split_spec(s).1.len(), s.len() as int) == split_spec(s).1,
        all_trimmed(split_spec(s).0),
        split_spec(split_spec(s).1) == (Seq::<Seq<char>>::empty(), split_spec(s).1),
        (forall|j: int| 0 <= j < s.len() ==> s[j] != ';') ==> split_spec(s) == (
            Seq::<Seq<char>>::empty(),
            s,
        ),
{
    let (statements, remainder) = split_spec(s);
    lemma_scan_start(s, 0, None, false, 0, 0, seq![]);
    lemma_split_statements_trimmed(s);
    lemma_split_append(s, seq![]);
    assert(s + Seq::<char>::empty() =~= s);
    assert(remainder + Seq::<char>::empty() =~= remainder);
    let (second, last) = split_spec(remainder);
    assert(statements + second == statements);
    assert((statements + second).len() == statements.len() + second.len());
    assert(second =~= Seq::<Seq<char>>::empty());
    if forall|j: int| 0 <= j < s.len() ==> s[j] != ';' {
        lemma_scan_without_terminator(s, 0, None, false, 0, 0, seq![]);
        assert(s.subrange(0, s.len() as int) =~= s);
    }
}

proof fn lemma_scan_plain(
    s: Seq<char>,
    i: int,
    k: int,
    start: int,
    acc: Seq<Seq<char>>,
)
    requires
        0 <= i <= k <= s.len(),
        forall|j: int|
            i <= j < k ==> !is_quote(#[trigger] s[j]) && s[j] != '/' && s[j] != ';',
    ensures
        scan(s, i, None, false, 0, start, acc) == scan(s, k, None, false, 0, start, acc),
    decreases k - i,
{
    if i < k {
        assert(!is_quote(s[i]) && s[i] != '/' && s[i] != ';');
        lemma_scan_plain(s, i + 1, k, start, acc);
    }
}

proof fn lemma_scan_in_literal(
    s: Seq<char>,
    i: int,
    k: int,
    q: char,
    start: int,
    acc: Seq<Seq<char>>,
)
    requires
        0 <= i <= k <= s.len(),
        forall|j: int| i <= j < k ==> #[trigger] s[j] != q && s[j] != '\\',
    ensures
        scan(s, i, Some(q), false, 0, start, acc) == scan(s, k, Some(q), false, 0, start, acc),
    decreases k - i,
{
    if i < k {
        assert(s[i] != q && s[i] != '\\');
        lemma_scan_in_literal(s, i + 1, k, q, start, acc);
    }
}

/// No `;` inside a string literal or quoted identifier ends a statement:
/// for each of the quotes `'`, `"` and `` ` ``, and every text `t` without
/// that quote and without `\`, splitting `RETURN ` + quote + `t` + quote +
/// `;` gives exactly the one statement `RETURN ` + quote + `t` + quote and
/// no remainder, whatever `;` the text holds.
pub proof fn lemma_quoted_semicolons(q: char, t: Seq<char>)
    requires
        q == '\'' || q == '"' || q == '`',
        forall|j: int| 0 <= j < t.len() ==> #[trigger] t[j] != q && t[j] != '\\',
    ensures
        split_spec("RETURN "@ + seq![q] + t + seq![q, ';']) == (
            seq!["RETURN "@ + seq![q] + t + seq![q]],
            Seq::<char>::empty(),
        ),
{
    reveal_strlit("RETURN ");
    let p = "RETURN "@;
    let s = p + seq![q] + t + seq![q, ';'];
    let statement = p + seq![q] + t + seq![q];
    let k: int = 8 + t.len() as int;
    assert(s.len() == k + 2);
    assert forall|j: int| 0 <= j < 7 implies !is_quote(#[trigger] s[j]) && s[j] != '/' && s[j] != ';' by {
        assert(s[j] == p[j]);
    }
    lemma_scan_plain(s, 0, 7, 0, seq![]);
    assert(s[7] == q);
    assert forall|j: int| 8 <= j < k implies #[trigger] s[j] != q && s[j] != '\\' by {
        assert(s[j] == t[j - 8]);
    }
    lemma_scan_in_literal(s, 8, k, q, 0, seq![]);
    assert(s[k] == q);
    assert(s[k + 1] == ';');
    assert(s.subrange(0, k + 1) =~= statement);
    assert(statement[0] == 'R');
    assert(statement.last() == q);
    assert(trim_start(statement) == statement);
    assert(trim_end(statement) == statement);
    assert(add_statement(seq![], s, 0, k + 1) =~= seq![statement]);
    let empty = Seq::<Seq<char>>::empty();
    assert(is_quote(q));
    assert(step(s, 7, None, false, 0) == (8int, Some(q), false, 0nat, false));
    assert(scan(s, 7, None, false, 0, 0, empty) == scan(s, 8, Some(q), false, 0, 0, empty));
    assert(step(s, k, Some(q), false, 0) == (k + 1, None::<char>, false, 0nat, false));
    assert(scan(s, k, Some(q), false, 0, 0, empty) == scan(s, k + 1, None, false, 0, 0, empty));
    assert(step(s, k + 1, None, false, 0) == (k + 2, None::<char>, false, 0nat, true));
    assert(scan(s, k + 1, None, false, 0, 0, empty) == scan(
        s,
        k + 2,
        None,
        false,
        0,
        k + 2,
        add_statement(empty, s, 0, k + 1),
    ));
    assert(scan(s, k + 2, None, false, 0, k + 2, seq![statement]) == (seq![statement], k + 2));
    assert(s.subrange(k + 2, s.len() as int) =~= Seq::<char>::empty());
}

/// Whitespace is skipped by the scan outside literals and comments.
proof fn lemma_scan_skips_space(s: Seq<char>, i: int, k: int, acc: Seq<Seq<char>>)
    requires
        0 <= i <= k <= s.len(),
        forall|j: int| i <= j < k ==> is_whitespace(#[trigger] s[j]),
    ensures
        scan(s, i, None, false, 0, 0, acc) == scan(s, k, None, false, 0, 0, acc),
    decreases k - i,
{
    if i < k {
        assert(is_whitespace(s[i]));
        assert(step(s, i, None, false, 0) == (i + 1, None::<char>, false, 0nat, false));
        lemma_scan_skips_space(s, i + 1, k, acc);
    }
}

/// Scanning `ws + rest` from inside `rest`, while the current statement
/// still starts at the very beginning, finds the statements of `rest`
/// alone: the leading whitespace is trimmed from the first of them.
proof fn lemma_scan_space_prefix(
    ws: Seq<char>,
    rest: Seq<char>,
    i: int,
    quote: Option<char>,
    line_comment: bool,
    depth: nat,
    acc: Seq<Seq<char>>,
)
    requires
        all_space(ws),
        0 <= i,
    ensures
        ({
            let (found, end) = scan(rest, i, quote, line_comment, depth, 0, acc);
            scan(ws + rest, ws.len() + i, quote, line_comment, depth, 0, acc) == (
                found,
                if end == 0 {
                    0
                } else {
                    ws.len() + end
                },
            )
        }),
    decreases rest.len() - i,
{
    let whole = ws + rest;
    let k = ws.len() as int;
    if i >= rest.len() {
    } else {
        assert(whole[k + i] == rest[i]);
        if i + 1 < rest.len() {
            assert(whole[k + i + 1] == rest[i + 1]);
        }
        let (j, q, l, d, terminator) = step(rest, i, quote, line_comment, depth);
        let (wj, wq, wl, wd, wterminator) = step(whole, k + i, quote, line_comment, depth);
        assert(wj == k + j && wq == q && wl == l && wd == d && wterminator == terminator);
        if terminator {
            assert(whole.subrange(0, k + i) == ws + rest.subrange(0, i));
            lemma_trim_space_prefix(ws, rest.subrange(0, i));
            assert(add_statement(acc, whole, 0, k + i) == add_statement(acc, rest, 0, i));
            let added = add_statement(acc, rest, 0, i);
            lemma_scan_shift(ws, rest, j, q, l, d, i + 1, added);
            lemma_scan_start(rest, j, q, l, d, i + 1, added);
        } else {
            lemma_scan_space_prefix(ws, rest, j, q, l, d, acc);
        }
    }
}

/// Leading whitespace changes neither the statements of a text nor, but
/// for that whitespace, its remainder.
pub proof fn lemma_split_space_prefix(ws: Seq<char>, text: Seq<char>)
    requires
        all_space(ws),
    ensures
        split_spec(ws + text).0 == split_spec(text).0,
        split_spec(ws + text).1 == split_spec(text).1 || split_spec(ws + text).1 == ws
            + split_spec(text).1,
{
    let whole = ws + text;
    let k = ws.len() as int;
    assert forall|j: int| 0 <= j < k implies is_whitespace(#[trigger] whole[j]) by {
        assert(whole[j] == ws[j]);
    }
    lemma_scan_skips_space(whole, 0, k, seq![]);
    lemma_scan_space_prefix(ws, text, 0, None, false, 0, seq![]);
    let (_, end) = scan(text, 0, None, false, 0, 0, seq![]);
    lemma_scan_start(text, 0, None, false, 0, 0, seq![]);
    if end == 0 {
        assert(whole.subrange(0, whole.len() as int) == ws + text.subrange(0, text.len() as int));
    } else {
        assert(whole.subrange(k + end, whole.len() as int) == text.subrange(end, text.len() as int));
    }
}

} // verus!
