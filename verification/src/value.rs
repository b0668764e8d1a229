//! Query values and their human-readable text.
use vstd::prelude::*;

use crate::text::{append, decimal, push_char, push_decimal, push_signed_decimal, signed_decimal};

verus! {

/// How an edge connects its endpoints.
#[derive(Clone, Copy, Debug, PartialEq, Eq, Structural)]
pub enum EdgeKind {
    Directed,
    Undirected,
    Bidirectional,
}

/// A graph node: its identifier, labels and properties (in iteration order).
#[derive(Debug, PartialEq)]
pub struct NodeValue {
    pub id: u64,
    pub labels: Vec<String>,
    pub properties: Vec<(String, QueryValue)>,
}

/// A graph edge: its identifier, kind, endpoints, optional relationship
/// type and properties (in iteration order).
#[derive(Debug, PartialEq)]
pub struct EdgeValue {
    pub id: u64,
    pub kind: EdgeKind,
    pub source: u64,
    pub target: u64,
    pub relationship_type: Option<String>,
    pub properties: Vec<(String, QueryValue)>,
}

/// A value in a query result. A floating-point value is held as the text
/// that Rust's `Display` gives it, which is all that output reads of it.
#[derive(Debug, PartialEq)]
pub enum QueryValue {
    Null,
    Boolean(bool),
    Integer(i64),
    Float(String),
    String(String),
    Bytes(Vec<u8>),
    Duration(i64),
    List(Vec<QueryValue>),
    Mapping(Vec<(String, QueryValue)>),
    Node(NodeValue),
    Edge(EdgeValue),
}

/// The lowercase hexadecimal digit for a value below sixteen.
pub open spec fn hex_digit(d: int) -> char {
    if d < 10 {
        crate::text::digit(d)
    } else if d == 10 {
        'a'
    } else if d == 11 {
        'b'
    } else if d == 12 {
        'c'
    } else if d == 13 {
        'd'
    } else if d == 14 {
        'e'
    } else {
        'f'
    }
}

/// Two lowercase hexadecimal digits per byte, high nibble first.
pub open spec fn hex_text(bytes: Seq<u8>) -> Seq<char>
    decreases bytes.len(),
{
    if bytes.len() == 0 {
        seq![]
    } else {
        hex_text(bytes.drop_last()) + seq![
            hex_digit(bytes.last() as int / 16),
            hex_digit(bytes.last() as int % 16),
        ]
    }
}

/// The text of `true` or `false`.
pub open spec fn bool_text(b: bool) -> Seq<char> {
    if b {
        "true"@
    } else {
        "false"@
    }
}

/// The human-readable text of a value, as tables and CSV show it.
pub open spec fn display(value: QueryValue) -> Seq<char>
    decreases value,
{
    match value {
        QueryValue::Null => "null"@,
        QueryValue::Boolean(b) => bool_text(b),
        QueryValue::Integer(i) => signed_decimal(i as int),
        QueryValue::Float(text) => text@,
        QueryValue::String(text) => text@,
        QueryValue::Bytes(bytes) => hex_text(bytes@),
        QueryValue::Duration(nanos) => signed_decimal(nanos as int) + "ns"@,
        QueryValue::List(values) => seq!['['] + display_list(values@) + seq![']'],
        QueryValue::Mapping(entries) => seq!['{'] + display_entries(entries@) + seq!['}'],
        QueryValue::Node(node) => "node#"@ + decimal(node.id as nat),
        QueryValue::Edge(edge) => "edge#"@ + decimal(edge.id as nat),
    }
}

/// The texts of the values, separated by `", "`.
pub open spec fn display_list(values: Seq<QueryValue>) -> Seq<char>
    decreases values,
{
    if values.len() == 0 {
        seq![]
    } else if values.len() == 1 {
        display(values[0])
    } else {
        display_list(values.drop_last()) + seq![',', ' '] + display(values.last())
    }
}

/// The entries as `key: text`, separated by `", "`.
pub open spec fn display_entries(entries: Seq<(String, QueryValue)>) -> Seq<char>
    decreases entries,
{
    if entries.len() == 0 {
        seq![]
    } else if entries.len() == 1 {
        entries[0].0@ + seq![':', ' '] + display(entries[0].1)
    } else {
        display_entries(entries.drop_last()) + seq![',', ' '] + entries.last().0@ + seq![':', ' ']
            + display(entries.last().1)
    }
}

pub(crate) fn hex_digit_of(d: u8) -> (c: char)
    requires
        d < 16,
    ensures
        c == hex_digit(d as int),
{
    if d < 10 {
        if d == 0 {
            '0'
        } else if d == 1 {
            '1'
        } else if d == 2 {
            '2'
        } else if d == 3 {
            '3'
        } else if d == 4 {
            '4'
        } else if d == 5 {
            '5'
        } else if d == 6 {
            '6'
        } else if d == 7 {
            '7'
        } else if d == 8 {
            '8'
        } else {
            '9'
        }
    } else if d == 10 {
        'a'
    } else if d == 11 {
        'b'
    } else if d == 12 {
        'c'
    } else if d == 13 {
        'd'
    } else if d == 14 {
        'e'
    } else {
        'f'
    }
}

/// Lowercase hexadecimal text of the bytes, two digits per byte.
pub fn hex(bytes: &[u8]) -> (text: String)
    ensures
        text@ == hex_text(bytes@),
{
    let mut text = String::new();
    let mut i: usize = 0;
    while i < bytes.len()
        invariant
            i <= bytes@.len(),
            text@ == hex_text(bytes@.take(i as int)),
        decreases bytes@.len() - i,
    {
        let byte = bytes[i];
        push_char(&mut text, hex_digit_of(byte / 16));
        push_char(&mut text, hex_digit_of(byte % 16));
        i += 1;
        assert(bytes@.take(i as int).drop_last() == bytes@.take(i - 1));
    }
    assert(bytes@.take(bytes@.len() as int) == bytes@);
    text
}

fn push_display(text: &mut String, value: &QueryValue)
    ensures
        final(text)@ == old(text)@ + display(*value),
    decreases value,
{
    match value {
        QueryValue::Null => {
            append(text, "null");
        },
        QueryValue::Boolean(b) => {
            if *b {
                append(text, "true");
            } else {
                append(text, "false");
            }
        },
        QueryValue::Integer(i) => push_signed_decimal(text, *i),
        QueryValue::Float(t) => append(text, t.as_str()),
        QueryValue::String(t) => append(text, t.as_str()),
        QueryValue::Bytes(bytes) => {
            let digits = hex(bytes.as_slice());
            append(text, digits.as_str());
        },
        QueryValue::Duration(nanos) => {
            push_signed_decimal(text, *nanos);
            append(text, "ns");
        },
        QueryValue::List(values) => {
            push_char(text, '[');
            let ghost base = text@;
            let mut i: usize = 0;
            while i < values.len()
                invariant
                    *value == QueryValue::List(*values),
                    i <= values@.len(),
                    text@ == base + display_list(values@.take(i as int)),
                decreases values@.len() - i,
            {
                if i > 0 {
                    push_char(text, ',');
                    push_char(text, ' ');
                }
                proof {
                    assert(decreases_to!(*value => value->List_0));
                    assert(decreases_to!(value->List_0 => values@));
                    assert(decreases_to!(values@ => values@[i as int]));
                }
                push_display(text, &values[i]);
                i += 1;
                assert(values@.take(i as int).drop_last() == values@.take(i - 1));
            }
            assert(values@.take(values@.len() as int) == values@);
            push_char(text, ']');
        },
        QueryValue::Mapping(entries) => {
            push_char(text, '{');
            let ghost base = text@;
            let mut i: usize = 0;
            while i < entries.len()
                invariant
                    *value == QueryValue::Mapping(*entries),
                    i <= entries@.len(),
                    text@ == base + display_entries(entries@.take(i as int)),
                decreases entries@.len() - i,
            {
                if i > 0 {
                    push_char(text, ',');
                    push_char(text, ' ');
                }
                append(text, entries[i].0.as_str());
                push_char(text, ':');
                push_char(text, ' ');
                proof {
                    assert(decreases_to!(*value => value->Mapping_0));
                    assert(decreases_to!(value->Mapping_0 => entries@));
                    assert(decreases_to!(entries@ => entries@[i as int]));
                    assert(decreases_to!(entries@[i as int] => entries@[i as int].1));
                }
                push_display(text, &entries[i].1);
                i += 1;
                assert(entries@.take(i as int).drop_last() == entries@.take(i - 1));
            }
            assert(entries@.take(entries@.len() as int) == entries@);
            push_char(text, '}');
        },
        QueryValue::Node(node) => {
            append(text, "node#");
            push_decimal(text, node.id);
        },
        QueryValue::Edge(edge) => {
            append(text, "edge#");
            push_decimal(text, edge.id);
        },
    }
}

/// The human-readable text of a value, as tables and CSV show it.
pub fn display_value(value: &QueryValue) -> (text: String)
    ensures
        text@ == display(*value),
{
    let mut text = String::new();
    push_display(&mut text, value);
    text
}

/// The hexadecimal text of bytes has two digits per byte.
pub proof fn lemma_hex_length(bytes: Seq<u8>)
    ensures
        hex_text(bytes).len() == 2 * bytes.len(),
    decreases bytes.len(),
{
    if bytes.len() > 0 {
        lemma_hex_length(bytes.drop_last());
    }
}

} // verus!
