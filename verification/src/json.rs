use vstd::prelude::*;
use vstd::string::StringExecFns;

use crate::text::{chars_of, push_dec_i64, spec_dec_i64};
use crate::value::{
    lemma_record_view, lemma_spec_entries_of, lemma_spec_values_of, spec_entries_of,
    spec_values_of, Record, SpecValue, Value,
};

verus! {

broadcast use crate::value::lemma_value_view;

/// A hexadecimal digit, lower case.
pub open spec fn spec_hex_char(d: int) -> char {
    if d < 10 {
        crate::text::spec_digit_char(d)
    } else if d == 10 {
        'a'
    } else if d == 11 {
        'b'
    } else if d == 12 {
        'c'
    } else if d == 13 {
        'd'
    } else if d == 14 {
        'e'
    } else {
        'f'
    }
}

/// How one character appears inside a JSON string literal: quote, backslash
/// and control characters are escaped, everything else stands as it is.
pub open spec fn spec_json_escape_char(c: char) -> Seq<char> {
    if c == '"' {
        seq!['\\', '"']
    } else if c == '\\' {
        seq!['\\', '\\']
    } else if c == '\u{8}' {
        seq!['\\', 'b']
    } else if c == '\u{c}' {
        seq!['\\', 'f']
    } else if c == '\n' {
        seq!['\\', 'n']
    } else if c == '\r' {
        seq!['\\', 'r']
    } else if c == '\t' {
        seq!['\\', 't']
    } else if (c as u32) < 0x20 {
        seq!['\\', 'u', '0', '0', spec_hex_char(c as u32 as int / 16), spec_hex_char(
            c as u32 as int % 16,
        )]
    } else {
        seq![c]
    }
}

/// A string's characters, escaped for a JSON string literal.
pub open spec fn spec_escape(s: Seq<char>) -> Seq<char>
    decreases s.len(),
{
    if s.len() == 0 {
        Seq::empty()
    } else {
        spec_escape(s.drop_last()) + spec_json_escape_char(s.last())
    }
}

/// The JSON text of a value: `null`, `true`/`false`, a decimal number, a
/// quoted string, or the bracketed, comma-separated forms.
pub open spec fn spec_json(v: SpecValue) -> Seq<char>
    decreases v,
{
    match v {
        SpecValue::Null => "null"@,
        SpecValue::Bool(b) => if b {
            "true"@
        } else {
            "false"@
        },
        SpecValue::Int(n) => spec_dec_i64(n),
        SpecValue::Str(s) => seq!['"'] + spec_escape(s) + seq!['"'],
        SpecValue::Arr(vs) => seq!['['] + spec_json_list(vs) + seq![']'],
        SpecValue::Obj(es) => seq!['{'] + spec_json_members(es) + seq!['}'],
    }
}

/// Array elements, comma-separated.
pub open spec fn spec_json_list(vs: Seq<SpecValue>) -> Seq<char>
    decreases vs,
{
    if vs.len() == 0 {
        Seq::empty()
    } else if vs.len() == 1 {
        spec_json(vs[0])
    } else {
        spec_json_list(vs.drop_last()) + seq![','] + spec_json(vs.last())
    }
}

/// Object members, comma-separated, each a quoted key, a colon and a value.
pub open spec fn spec_json_members(es: Seq<(Seq<char>, SpecValue)>) -> Seq<char>
    decreases es,
{
    if es.len() == 0 {
        Seq::empty()
    } else if es.len() == 1 {
        seq!['"'] + spec_escape(es[0].0) + seq!['"', ':'] + spec_json(es[0].1)
    } else {
        spec_json_members(es.drop_last()) + seq![','] + (seq!['"'] + spec_escape(es.last().0)
            + seq!['"', ':'] + spec_json(es.last().1))
    }
}

fn hex_char_of(d: u32) -> (c: char)
    requires
        d < 16,
    ensures
        c == spec_hex_char(d as int),
{
    if d == 0 {
        '0'
    } else if d == 1 {
        '1'
    } else if d == 2 {
        '2'
    } else if d == 3 {
        '3'
    } else if d == 4 {
        '4'
    } else if d == 5 {
        '5'
    } else if d == 6 {
        '6'
    } else if d == 7 {
        '7'
    } else if d == 8 {
        '8'
    } else if d == 9 {
        '9'
    } else if d == 10 {
        'a'
    } else if d == 11 {
        'b'
    } else if d == 12 {
        'c'
    } else if d == 13 {
        'd'
    } else if d == 14 {
        'e'
    } else {
        'f'
    }
}

fn push_escaped_char(out: &mut String, c: char)
    ensures
        final(out)@ == old(out)@ + spec_json_escape_char(c),
{
    if c == '"' {
        out.push('\\');
        out.push('"');
        proof {
            assert(old(out)@ + spec_json_escape_char(c) =~= old(out)@.push('\\').push('"'));
        }
    } else if c == '\\' {
        out.push('\\');
        out.push('\\');
        proof {
            assert(old(out)@ + spec_json_escape_char(c) =~= old(out)@.push('\\').push('\\'));
        }
    } else if c == '\u{8}' {
        out.push('\\');
        out.push('b');
        proof {
            assert(old(out)@ + spec_json_escape_char(c) =~= old(out)@.push('\\').push('b'));
        }
    } else if c == '\u{c}' {
        out.push('\\');
        out.push('f');
        proof {
            assert(old(out)@ + spec_json_escape_char(c) =~= old(out)@.push('\\').push('f'));
        }
    } else if c == '\n' {
        out.push('\\');
        out.push('n');
        proof {
            assert(old(out)@ + spec_json_escape_char(c) =~= old(out)@.push('\\').push('n'));
        }
    } else if c == '\r' {
        out.push('\\');
        out.push('r');
        proof {
            assert(old(out)@ + spec_json_escape_char(c) =~= old(out)@.push('\\').push('r'));
        }
    } else if c == '\t' {
        out.push('\\');
        out.push('t');
        proof {
            assert(old(out)@ + spec_json_escape_char(c) =~= old(out)@.push('\\').push('t'));
        }
    } else {
        let u = c as u32;
        if u < 0x20 {
            out.push('\\');
            out.push('u');
            out.push('0');
            out.push('0');
            let hi = hex_char_of(u / 16);
            out.push(hi);
            let lo = hex_char_of(u % 16);
            out.push(lo);
            proof {
                assert(old(out)@ + spec_json_escape_char(c) =~= old(out)@.push('\\').push(
                    'u',
                ).push('0').push('0').push(spec_hex_char(u as int / 16)).push(
                    spec_hex_char(u as int % 16),
                ));
            }
        } else {
            out.push(c);
            proof {
                assert(old(out)@ + spec_json_escape_char(c) =~= old(out)@.push(c));
            }
        }
    }
}

fn push_json_string(out: &mut String, s: &String)
    ensures
        final(out)@ == old(out)@ + seq!['"'] + spec_escape(s@) + seq!['"'],
{
    out.push('"');
    let cs = chars_of(s.as_str());
    let n = cs.len();
    let ghost start = old(out)@.push('"');
    proof {
        assert(spec_escape(cs@.take(0)) =~= Seq::<char>::empty());
        assert(out@ =~= start + spec_escape(cs@.take(0)));
    }
    for i in 0..n
        invariant
            n == cs@.len(),
            cs@ == s@,
            start == old(out)@.push('"'),
            out@ == start + spec_escape(cs@.take(i as int)),
    {
        push_escaped_char(out, cs[i]);
        proof {
            assert(cs@.take(i as int + 1).drop_last() =~= cs@.take(i as int));
            assert(cs@.take(i as int + 1).last() == cs@[i as int]);
            assert(start + spec_escape(cs@.take(i as int)) + spec_json_escape_char(cs@[i as int])
                =~= start + spec_escape(cs@.take(i as int + 1)));
        }
    }
    out.push('"');
    proof {
        assert(cs@.take(n as int) =~= s@);
        assert(old(out)@.push('"') + spec_escape(s@) =~= old(out)@ + seq!['"'] + spec_escape(s@));
        assert(out@ =~= old(out)@ + seq!['"'] + spec_escape(s@) + seq!['"']);
    }
}

/// Appends the JSON text of `v`, exactly as `spec_json` describes.
pub fn push_json(out: &mut String, v: &Value)
    ensures
        final(out)@ == old(out)@ + spec_json(v@),
    decreases *v,
{
    match v {
        Value::Null => {
            out.append("null");
        },
        Value::Bool(b) => {
            if *b {
                out.append("true");
            } else {
                out.append("false");
            }
        },
        Value::Number(n) => {
            push_dec_i64(out, *n);
        },
        Value::Str(s) => {
            push_json_string(out, s);
        },
        Value::Array(vs) => {
            push_json_values(out, vs);
        },
        Value::Object(r) => {
            proof {
                lemma_record_view(r);
            }
            push_json_entries(out, &r.entries);
        },
    }
}

fn push_json_values(out: &mut String, vs: &Vec<Value>)
    ensures
        final(out)@ == old(out)@ + spec_json(SpecValue::Arr(spec_values_of(vs@))),
    decreases vs@,
{
    out.push('[');
    let ghost sv = spec_values_of(vs@);
    proof {
        lemma_spec_values_of(vs@);
        assert(spec_json_list(sv.take(0)) =~= Seq::<char>::empty());
        assert(out@ =~= old(out)@.push('[') + spec_json_list(sv.take(0)));
    }
    let n = vs.len();
    for i in 0..n
        invariant
            n == vs@.len(),
            sv == spec_values_of(vs@),
            sv.len() == n,
            forall|j: int| 0 <= j < n ==> sv[j] == crate::value::spec_value_of(vs@[j]),
            out@ == old(out)@.push('[') + spec_json_list(sv.take(i as int)),
    {
        if i > 0 {
            out.push(',');
        }
        push_json(out, &vs[i]);
        proof {
            assert(sv.take(i as int + 1).drop_last() =~= sv.take(i as int));
            assert(sv.take(i as int + 1).last() == sv[i as int]);
            if i == 0 {
                assert(spec_json_list(sv.take(1)) == spec_json(sv[0]));
                assert(out@ =~= old(out)@.push('[') + spec_json_list(sv.take(1)));
            } else {
                assert(spec_json_list(sv.take(i as int + 1)) == spec_json_list(sv.take(i as int))
                    + seq![','] + spec_json(sv[i as int]));
                assert(out@ =~= old(out)@.push('[') + spec_json_list(sv.take(i as int + 1)));
            }
        }
    }
    out.push(']');
    proof {
        assert(sv.take(n as int) =~= sv);
        assert(out@ =~= old(out)@ + (seq!['['] + spec_json_list(sv) + seq![']']));
    }
}

fn push_json_entries(out: &mut String, es: &Vec<(String, Value)>)
    ensures
        final(out)@ == old(out)@ + spec_json(SpecValue::Obj(spec_entries_of(es@))),
    decreases es@,
{
    out.push('{');
    let ghost se = spec_entries_of(es@);
    proof {
        lemma_spec_entries_of(es@);
        assert(spec_json_members(se.take(0)) =~= Seq::<char>::empty());
        assert(out@ =~= old(out)@.push('{') + spec_json_members(se.take(0)));
    }
    let n = es.len();
    for i in 0..n
        invariant
            n == es@.len(),
            se == spec_entries_of(es@),
            se.len() == n,
            forall|j: int| 0 <= j < n ==> se[j] == (es@[j].0@, crate::value::spec_value_of(
                es@[j].1,
            )),
            out@ == old(out)@.push('{') + spec_json_members(se.take(i as int)),
    {
        if i > 0 {
            out.push(',');
        }
        push_json_string(out, &es[i].0);
        out.push(':');
        push_json(out, &es[i].1);
        proof {
            assert(se.take(i as int + 1).drop_last() =~= se.take(i as int));
            assert(se.take(i as int + 1).last() == se[i as int]);
            let member = seq!['"'] + spec_escape(se[i as int].0) + seq!['"', ':'] + spec_json(
                se[i as int].1,
            );
            if i == 0 {
                assert(spec_json_members(se.take(1)) == member);
                assert(out@ =~= old(out)@.push('{') + spec_json_members(se.take(1)));
            } else {
                assert(spec_json_members(se.take(i as int + 1)) == spec_json_members(
                    se.take(i as int),
                ) + seq![','] + member);
                assert(out@ =~= old(out)@.push('{') + spec_json_members(se.take(i as int + 1)));
            }
        }
    }
    out.push('}');
    proof {
        assert(se.take(n as int) =~= se);
        assert(out@ =~= old(out)@ + (seq!['{'] + spec_json_members(se) + seq!['}']));
    }
}

/// The JSON text of a value, as a fresh string.
pub fn to_json(v: &Value) -> (r: String)
    ensures
        r@ == spec_json(v@),
{
    let mut out = String::new();
    push_json(&mut out, v);
    proof {
        assert(Seq::<char>::empty() + spec_json(v@) =~= spec_json(v@));
    }
    out
}

// ----- indented rendering, for operator-facing previews -----

/// The indented JSON text of a value standing at the given indentation:
/// scalars and strings render as in the compact form; a non-empty array or
/// object opens its bracket, puts each member on its own deeper-indented
/// line, and closes the bracket back at this indentation.
pub open spec fn spec_json_pretty(v: SpecValue, indent: Seq<char>) -> Seq<char>
    decreases v,
{
    match v {
        SpecValue::Null => "null"@,
        SpecValue::Bool(b) => if b {
            "true"@
        } else {
            "false"@
        },
        SpecValue::Int(n) => spec_dec_i64(n),
        SpecValue::Str(s) => seq!['"'] + spec_escape(s) + seq!['"'],
        SpecValue::Arr(vs) => {
            if vs.len() == 0 {
                "[]"@
            } else {
                seq!['['] + spec_json_pretty_list(vs, indent + "  "@) + seq!['\n'] + indent
                    + seq![']']
            }
        },
        SpecValue::Obj(es) => {
            if es.len() == 0 {
                "{}"@
            } else {
                seq!['{'] + spec_json_pretty_members(es, indent + "  "@) + seq!['\n'] + indent
                    + seq!['}']
            }
        },
    }
}

/// Array elements on their own indented lines, comma-separated.
pub open spec fn spec_json_pretty_list(vs: Seq<SpecValue>, indent: Seq<char>) -> Seq<char>
    decreases vs,
{
    if vs.len() == 0 {
        Seq::empty()
    } else if vs.len() == 1 {
        seq!['\n'] + indent + spec_json_pretty(vs[0], indent)
    } else {
        spec_json_pretty_list(vs.drop_last(), indent) + seq![','] + (seq!['\n'] + indent
            + spec_json_pretty(vs.last(), indent))
    }
}

/// Object members on their own indented lines, comma-separated, each a
/// quoted key, a colon, a space and a value.
pub open spec fn spec_json_pretty_members(
    es: Seq<(Seq<char>, SpecValue)>,
    indent: Seq<char>,
) -> Seq<char>
    decreases es,
{
    if es.len() == 0 {
        Seq::empty()
    } else if es.len() == 1 {
        seq!['\n'] + indent + (seq!['"'] + spec_escape(es[0].0) + seq!['"', ':', ' ']
            + spec_json_pretty(es[0].1, indent))
    } else {
        spec_json_pretty_members(es.drop_last(), indent) + seq![','] + (seq!['\n'] + indent + (
        seq!['"'] + spec_escape(es.last().0) + seq!['"', ':', ' '] + spec_json_pretty(
            es.last().1,
            indent,
        )))
    }
}

/// Appends the indented JSON text of `v`, exactly as `spec_json_pretty`
/// describes.
pub fn push_json_pretty(out: &mut String, v: &Value, indent: &str)
    ensures
        final(out)@ == old(out)@ + spec_json_pretty(v@, indent@),
    decreases *v,
{
    match v {
        Value::Null => {
            out.append("null");
        },
        Value::Bool(b) => {
            if *b {
                out.append("true");
            } else {
                out.append("false");
            }
        },
        Value::Number(n) => {
            push_dec_i64(out, *n);
        },
        Value::Str(s) => {
            push_json_string(out, s);
        },
        Value::Array(vs) => {
            push_json_pretty_values(out, vs, indent);
        },
        Value::Object(r) => {
            proof {
                lemma_record_view(r);
            }
            push_json_pretty_entries(out, &r.entries, indent);
        },
    }
}

fn deeper_indent(indent: &str) -> (r: String)
    ensures
        r@ == indent@ + "  "@,
{
    let mut r = indent.to_owned();
    r.append("  ");
    r
}

fn push_json_pretty_values(out: &mut String, vs: &Vec<Value>, indent: &str)
    ensures
        final(out)@ == old(out)@ + spec_json_pretty(SpecValue::Arr(spec_values_of(vs@)), indent@),
    decreases vs@,
{
    let n = vs.len();
    let ghost sv = spec_values_of(vs@);
    proof {
        lemma_spec_values_of(vs@);
    }
    if n == 0 {
        out.append("[]");
        return ;
    }
    let child = deeper_indent(indent);
    out.push('[');
    proof {
        assert(spec_json_pretty_list(sv.take(0), child@) =~= Seq::<char>::empty());
        assert(out@ =~= old(out)@.push('[') + spec_json_pretty_list(sv.take(0), child@));
    }
    for i in 0..n
        invariant
            n == vs@.len(),
            n >= 1,
            sv == spec_values_of(vs@),
            sv.len() == n,
            child@ == indent@ + "  "@,
            forall|j: int| 0 <= j < n ==> sv[j] == crate::value::spec_value_of(vs@[j]),
            out@ == old(out)@.push('[') + spec_json_pretty_list(sv.take(i as int), child@),
    {
        if i > 0 {
            out.push(',');
        }
        out.push('\n');
        out.append(child.as_str());
        push_json_pretty(out, &vs[i], child.as_str());
        proof {
            assert(sv.take(i as int + 1).drop_last() =~= sv.take(i as int));
            assert(sv.take(i as int + 1).last() == sv[i as int]);
            if i == 0 {
                assert(spec_json_pretty_list(sv.take(1), child@) == seq!['\n'] + child@
                    + spec_json_pretty(sv[0], child@));
                assert(out@ =~= old(out)@.push('[') + spec_json_pretty_list(sv.take(1), child@));
            } else {
                assert(spec_json_pretty_list(sv.take(i as int + 1), child@)
                    == spec_json_pretty_list(sv.take(i as int), child@) + seq![','] + (seq!['\n']
                    + child@ + spec_json_pretty(sv[i as int], child@)));
                assert(out@ =~= old(out)@.push('[') + spec_json_pretty_list(
                    sv.take(i as int + 1),
                    child@,
                ));
            }
        }
    }
    out.push('\n');
    out.append(indent);
    out.push(']');
    proof {
        assert(sv.take(n as int) =~= sv);
        assert(out@ =~= old(out)@ + (seq!['['] + spec_json_pretty_list(sv, indent@ + "  "@)
            + seq!['\n'] + indent@ + seq![']']));
    }
}

fn push_json_pretty_entries(out: &mut String, es: &Vec<(String, Value)>, indent: &str)
    ensures
        final(out)@ == old(out)@ + spec_json_pretty(
            SpecValue::Obj(spec_entries_of(es@)),
            indent@,
        ),
    decreases es@,
{
    let n = es.len();
    let ghost se = spec_entries_of(es@);
    proof {
        lemma_spec_entries_of(es@);
    }
    if n == 0 {
        out.append("{}");
        return ;
    }
    let child = deeper_indent(indent);
    out.push('{');
    proof {
        assert(spec_json_pretty_members(se.take(0), child@) =~= Seq::<char>::empty());
        assert(out@ =~= old(out)@.push('{') + spec_json_pretty_members(se.take(0), child@));
    }
    for i in 0..n
        invariant
            n == es@.len(),
            n >= 1,
            se == spec_entries_of(es@),
            se.len() == n,
            child@ == indent@ + "  "@,
            forall|j: int| 0 <= j < n ==> se[j] == (es@[j].0@, crate::value::spec_value_of(
                es@[j].1,
            )),
            out@ == old(out)@.push('{') + spec_json_pretty_members(se.take(i as int), child@),
    {
        if i > 0 {
            out.push(',');
        }
        out.push('\n');
        out.append(child.as_str());
        push_json_string(out, &es[i].0);
        out.push(':');
        out.push(' ');
        push_json_pretty(out, &es[i].1, child.as_str());
        proof {
            assert(se.take(i as int + 1).drop_last() =~= se.take(i as int));
            assert(se.take(i as int + 1).last() == se[i as int]);
            let member = seq!['\n'] + child@ + (seq!['"'] + spec_escape(se[i as int].0) + seq![
                '"',
                ':',
                ' ',
            ] + spec_json_pretty(se[i as int].1, child@));
            if i == 0 {
                assert(spec_json_pretty_members(se.take(1), child@) == member);
                assert(out@ =~= old(out)@.push('{') + spec_json_pretty_members(
                    se.take(1),
                    child@,
                ));
            } else {
                assert(spec_json_pretty_members(se.take(i as int + 1), child@)
                    == spec_json_pretty_members(se.take(i as int), child@) + seq![','] + member);
                assert(out@ =~= old(out)@.push('{') + spec_json_pretty_members(
                    se.take(i as int + 1),
                    child@,
                ));
            }
        }
    }
    out.push('\n');
    out.append(indent);
    out.push('}');
    proof {
        assert(se.take(n as int) =~= se);
        assert(out@ =~= old(out)@ + (seq!['{'] + spec_json_pretty_members(se, indent@ + "  "@)
            + seq!['\n'] + indent@ + seq!['}']));
    }
}

/// The indented JSON text of a value, as a fresh string.
pub fn to_json_pretty(v: &Value) -> (r: String)
    ensures
        r@ == spec_json_pretty(v@, Seq::<char>::empty()),
{
    let mut out = String::new();
    push_json_pretty(&mut out, v, "");
    proof {
        reveal_strlit("");
        assert(""@ =~= Seq::<char>::empty());
        assert(Seq::<char>::empty() + spec_json_pretty(v@, Seq::<char>::empty()) =~= spec_json_pretty(
            v@,
            Seq::<char>::empty(),
        ));
    }
    out
}

} // verus!
