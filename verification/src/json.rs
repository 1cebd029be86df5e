//! The structured value tree the wire format carries. Envelopes and payloads
//! are built and read as `JsonValue` trees; turning a tree into its one-line
//! text form lives here too, while reading text back into a tree is the I/O
//! layer's business.
use vstd::prelude::*;
use crate::strutil::{push_char, str_eq};
use vstd::string::{StrSliceExecFns, StringExecFns};

verus! {

/// A structured wire value: exactly the shapes the protocol uses.
#[derive(Debug, PartialEq)]
pub enum JsonValue {
    Null,
    Bool(bool),
    Int(i64),
    Str(String),
    Arr(Vec<JsonValue>),
    Obj(Vec<(String, JsonValue)>),
}

/// The value under `key` among object entries, earliest entry winning.
pub open spec fn obj_get_entries(entries: Seq<(String, JsonValue)>, key: Seq<char>) -> Option<
    JsonValue,
>
    decreases entries.len(),
{
    if entries.len() == 0 {
        None
    } else if entries[0].0@ == key {
        Some(entries[0].1)
    } else {
        obj_get_entries(entries.drop_first(), key)
    }
}

/// The value under `key`, when `v` is an object that has it.
pub open spec fn obj_get_spec(v: JsonValue, key: Seq<char>) -> Option<JsonValue> {
    match v {
        JsonValue::Obj(entries) => obj_get_entries(entries@, key),
        _ => None,
    }
}

/// The character sequence of `v`, when it is a string.
pub open spec fn as_str_spec(v: JsonValue) -> Option<Seq<char>> {
    match v {
        JsonValue::Str(s) => Some(s@),
        _ => None,
    }
}

impl JsonValue {
    /// The value under `key`, when this is an object that has it.
    #[verifier::loop_isolation(false)]
    pub fn obj_get(&self, key: &str) -> (r: Option<&JsonValue>)
        ensures
            match r {
                Some(inner) => obj_get_spec(*self, key@) == Some(*inner),
                None => obj_get_spec(*self, key@) is None,
            },
    {
        match self {
            JsonValue::Obj(entries) => {
                let mut i: usize = 0;
                proof {
                    assert(entries@.skip(0) =~= entries@);
                }
                while i < entries.len()
                    invariant
                        i <= entries@.len(),
                        obj_get_entries(entries@, key@) == obj_get_entries(
                            entries@.skip(i as int),
                            key@,
                        ),
                    decreases entries@.len() - i,
                {
                    proof {
                        assert(entries@.skip(i as int)[0] == entries@[i as int]);
                    }
                    if str_eq(entries[i].0.as_str(), key) {
                        proof {
                            assert(entries@[i as int].0@ == key@);
                            assert(obj_get_entries(entries@.skip(i as int), key@) == Some(
                                entries@[i as int].1,
                            ));
                        }
                        return Some(&entries[i].1);
                    }
                    proof {
                        assert(entries@.skip(i as int).drop_first() =~= entries@.skip(i + 1));
                    }
                    i += 1;
                }
                proof {
                    assert(entries@.skip(entries@.len() as int) =~= Seq::<(
                        String,
                        JsonValue,
                    )>::empty());
                }
                None
            },
            _ => None,
        }
    }

    /// This value's text, when it is a string.
    pub fn as_str(&self) -> (r: Option<&String>)
        ensures
            match r {
                Some(s) => as_str_spec(*self) == Some(s@),
                None => as_str_spec(*self) is None,
            },
    {
        match self {
            JsonValue::Str(s) => Some(s),
            _ => None,
        }
    }

    /// This value's integer, when it is one.
    pub fn as_i64(&self) -> (r: Option<i64>)
        ensures
            match r {
                Some(n) => *self == JsonValue::Int(n),
                None => !(*self matches JsonValue::Int(_)),
            },
    {
        match self {
            JsonValue::Int(n) => Some(*n),
            _ => None,
        }
    }
}

/// The decimal digits of `n`, most significant first.
pub open spec fn dec_str(n: nat) -> Seq<char>
    decreases n,
{
    if n < 10 {
        seq![((48 + n) as u8) as char]
    } else {
        dec_str(n / 10).push(((48 + n % 10) as u8) as char)
    }
}

/// The decimal form of `n`, with a leading minus when negative.
pub open spec fn int_str(n: i64) -> Seq<char> {
    if n < 0 {
        seq!['-'] + dec_str((-(n as int)) as nat)
    } else {
        dec_str(n as nat)
    }
}

/// Writes `n` in decimal.
fn push_dec(out: &mut String, n: u64)
    ensures
        final(out)@ == old(out)@ + dec_str(n as nat),
    decreases n,
{
    if n < 10 {
        push_char(out, ((48 + n) as u8) as char);
    } else {
        push_dec(out, n / 10);
        push_char(out, ((48 + (n % 10)) as u8) as char);
    }
}

/// The decimal form of `n`.
pub fn int_to_string(n: i64) -> (r: String)
    ensures
        r@ == int_str(n),
{
    let mut out = String::new();
    if n < 0 {
        push_char(&mut out, '-');
        let m: u64 = if n == i64::MIN {
            9223372036854775808u64
        } else {
            (-n) as u64
        };
        proof {
            assert(m == (-(n as int)) as nat);
        }
        push_dec(&mut out, m);
        proof {
            assert(out@ =~= int_str(n));
        }
    } else {
        push_dec(&mut out, n as u64);
    }
    out
}

/// A hexadecimal digit.
pub open spec fn hex_digit(d: nat) -> char {
    if d < 10 {
        ((48 + d) as u8) as char
    } else {
        ((87 + d) as u8) as char
    }
}

/// How one character is written inside a JSON string literal: quotes and
/// backslashes escaped, control characters as `\n`, `\r`, `\t`, `\b`, `\f`
/// or `\u00..`, everything else as itself.
pub open spec fn esc_char(c: char) -> Seq<char> {
    if c == '"' {
        seq!['\\', '"']
    } else if c == '\\' {
        seq!['\\', '\\']
    } else if c == '\n' {
        seq!['\\', 'n']
    } else if c == '\r' {
        seq!['\\', 'r']
    } else if c == '\t' {
        seq!['\\', 't']
    } else if c == '\u{8}' {
        seq!['\\', 'b']
    } else if c == '\u{c}' {
        seq!['\\', 'f']
    } else if (c as u32) < 32 {
        seq!['\\', 'u', '0', '0', hex_digit((c as u32 / 16) as nat), hex_digit(
            (c as u32 % 16) as nat,
        )]
    } else {
        seq![c]
    }
}

/// A whole string, escaped.
pub open spec fn esc_str(s: Seq<char>) -> Seq<char>
    decreases s.len(),
{
    if s.len() == 0 {
        Seq::empty()
    } else {
        esc_str(s.drop_last()) + esc_char(s.last())
    }
}

/// Writes one character, escaped.
fn push_esc_char(out: &mut String, c: char)
    ensures
        final(out)@ == old(out)@ + esc_char(c),
{
    if c == '"' {
        push_char(out, '\\');
        push_char(out, '"');
    } else if c == '\\' {
        push_char(out, '\\');
        push_char(out, '\\');
    } else if c == '\n' {
        push_char(out, '\\');
        push_char(out, 'n');
    } else if c == '\r' {
        push_char(out, '\\');
        push_char(out, 'r');
    } else if c == '\t' {
        push_char(out, '\\');
        push_char(out, 't');
    } else if c == '\u{8}' {
        push_char(out, '\\');
        push_char(out, 'b');
    } else if c == '\u{c}' {
        push_char(out, '\\');
        push_char(out, 'f');
    } else if (c as u32) < 32 {
        push_char(out, '\\');
        push_char(out, 'u');
        push_char(out, '0');
        push_char(out, '0');
        let hi = (c as u32) / 16;
        let lo = (c as u32) % 16;
        push_char(out, if hi < 10 {
            ((48 + hi) as u8) as char
        } else {
            ((87 + hi) as u8) as char
        });
        push_char(out, if lo < 10 {
            ((48 + lo) as u8) as char
        } else {
            ((87 + lo) as u8) as char
        });
    } else {
        push_char(out, c);
    }
    proof {
        assert(final(out)@ =~= old(out)@ + esc_char(c));
    }
}

/// Writes a string literal: a quote, the escaped text, a quote.
fn push_str_literal(out: &mut String, s: &str)
    ensures
        final(out)@ == old(out)@ + seq!['"'] + esc_str(s@) + seq!['"'],
{
    push_char(out, '"');
    let n = s.unicode_len();
    let mut i: usize = 0;
    proof {
        assert(esc_str(s@.take(0)) =~= Seq::<char>::empty());
        assert(out@ =~= old(out)@ + seq!['"'] + esc_str(s@.take(0)));
    }
    while i < n
        invariant
            i <= n,
            n == s@.len(),
            out@ == old(out)@ + seq!['"'] + esc_str(s@.take(i as int)),
        decreases n - i,
    {
        proof {
            assert(s@.take(i + 1).drop_last() =~= s@.take(i as int));
            assert(s@.take(i + 1).last() == s@[i as int]);
        }
        push_esc_char(out, s.get_char(i));
        proof {
            assert(out@ =~= old(out)@ + seq!['"'] + esc_str(s@.take(i + 1)));
        }
        i += 1;
    }
    proof {
        assert(s@.take(n as int) =~= s@);
    }
    push_char(out, '"');
    proof {
        assert(out@ =~= old(out)@ + seq!['"'] + esc_str(s@) + seq!['"']);
    }
}

/// The text of the items of an array, comma separated.
pub open spec fn arr_text(items: Seq<JsonValue>) -> Seq<char>
    decreases items,
{
    if items.len() == 0 {
        Seq::empty()
    } else {
        let prev = arr_text(items.drop_last());
        let with_sep = if items.len() > 1 {
            prev.push(',')
        } else {
            prev
        };
        with_sep + json_text_spec(items.last())
    }
}

/// The text of the entries of an object, comma separated.
pub open spec fn obj_text(entries: Seq<(String, JsonValue)>) -> Seq<char>
    decreases entries,
{
    if entries.len() == 0 {
        Seq::empty()
    } else {
        let prev = obj_text(entries.drop_last());
        let with_sep = if entries.len() > 1 {
            prev.push(',')
        } else {
            prev
        };
        with_sep + seq!['"'] + esc_str(entries.last().0@) + seq!['"', ':'] + json_text_spec(
            entries.last().1,
        )
    }
}

/// The compact one-line text of a value: no added white space, strings
/// escaped so that the text never holds a raw line break.
pub open spec fn json_text_spec(v: JsonValue) -> Seq<char>
    decreases v,
{
    match v {
        JsonValue::Null => "null"@,
        JsonValue::Bool(b) => if b {
            "true"@
        } else {
            "false"@
        },
        JsonValue::Int(n) => int_str(n),
        JsonValue::Str(s) => seq!['"'] + esc_str(s@) + seq!['"'],
        JsonValue::Arr(items) => seq!['['] + arr_text(items@) + seq![']'],
        JsonValue::Obj(entries) => seq!['{'] + obj_text(entries@) + seq!['}'],
    }
}

/// Renders a value as compact one-line JSON text.
#[verifier::loop_isolation(false)]
pub fn json_text(v: &JsonValue) -> (r: String)
    ensures
        r@ == json_text_spec(*v),
    decreases *v,
{
    match v {
        JsonValue::Null => String::from_str("null"),
        JsonValue::Bool(b) => if *b {
            String::from_str("true")
        } else {
            String::from_str("false")
        },
        JsonValue::Int(n) => int_to_string(*n),
        JsonValue::Str(s) => {
            let mut out = String::new();
            push_str_literal(&mut out, s.as_str());
            proof {
                assert(out@ =~= json_text_spec(*v));
            }
            out
        },
        JsonValue::Arr(items) => {
            let mut out = String::new();
            push_char(&mut out, '[');
            let mut i: usize = 0;
            proof {
                assert(arr_text(items@.take(0)) =~= Seq::<char>::empty());
                assert(out@ =~= seq!['['] + arr_text(items@.take(0)));
            }
            while i < items.len()
                invariant
                    i <= items@.len(),
                    *v == JsonValue::Arr(*items),
                    out@ == seq!['['] + arr_text(items@.take(i as int)),
                decreases items@.len() - i,
            {
                proof {
                    assert(items@.take(i + 1).drop_last() =~= items@.take(i as int));
                    assert(items@.take(i + 1).last() == items@[i as int]);
                }
                if i > 0 {
                    push_char(&mut out, ',');
                }
                let t = json_text(&items[i]);
                out.append(t.as_str());
                proof {
                    assert(out@ =~= seq!['['] + arr_text(items@.take(i + 1)));
                }
                i += 1;
            }
            proof {
                assert(items@.take(items@.len() as int) =~= items@);
            }
            push_char(&mut out, ']');
            proof {
                assert(out@ =~= json_text_spec(*v));
            }
            out
        },
        JsonValue::Obj(entries) => {
            let mut out = String::new();
            push_char(&mut out, '{');
            let mut i: usize = 0;
            proof {
                assert(obj_text(entries@.take(0)) =~= Seq::<char>::empty());
                assert(out@ =~= seq!['{'] + obj_text(entries@.take(0)));
            }
            while i < entries.len()
                invariant
                    i <= entries@.len(),
                    *v == JsonValue::Obj(*entries),
                    out@ == seq!['{'] + obj_text(entries@.take(i as int)),
                decreases entries@.len() - i,
            {
                proof {
                    assert(entries@.take(i + 1).drop_last() =~= entries@.take(i as int));
                    assert(entries@.take(i + 1).last() == entries@[i as int]);
                }
                if i > 0 {
                    push_char(&mut out, ',');
                }
                push_str_literal(&mut out, entries[i].0.as_str());
                push_char(&mut out, ':');
                let t = json_text(&entries[i].1);
                out.append(t.as_str());
                proof {
                    assert(out@ =~= seq!['{'] + obj_text(entries@.take(i + 1)));
                }
                i += 1;
            }
            proof {
                assert(entries@.take(entries@.len() as int) =~= entries@);
            }
            push_char(&mut out, '}');
            proof {
                assert(out@ =~= json_text_spec(*v));
            }
            out
        },
    }
}

} // verus!
