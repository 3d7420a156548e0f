//! The mapping of the tree to canonical JSON text. Source positions are never
//! written; names are written as `{"kind":"Name","value":...}`; an absent
//! optional name is left out; argument lists keep their declared order.
use vstd::prelude::*;
use crate::text::{Text, chars_of, push_char, push_text};
use crate::value::{Directive, Type, Value};

verus! {

pub open spec fn hex_digit(d: int) -> char {
    seq!['0', '1', '2', '3', '4', '5', '6', '7', '8', '9', 'a', 'b', 'c', 'd', 'e', 'f'][d]
}

/// A character as it stands inside a JSON string.
pub open spec fn escape_char(c: char) -> Seq<char> {
    if c == '"' {
        seq!['\\', '"']
    } else if c == '\\' {
        seq!['\\', '\\']
    } else if c == '\n' {
        seq!['\\', 'n']
    } else if c == '\r' {
        seq!['\\', 'r']
    } else if c == '\t' {
        seq!['\\', 't']
    } else if (c as int) < 32 {
        seq!['\\', 'u', '0', '0', hex_digit((c as int) / 16), hex_digit((c as int) % 16)]
    } else {
        seq![c]
    }
}

pub open spec fn escaped(s: Seq<char>) -> Seq<char>
    decreases s.len(),
{
    if s.len() == 0 {
        seq![]
    } else {
        escaped(s.drop_last()) + escape_char(s.last())
    }
}

/// A text as a JSON string.
pub open spec fn quoted(s: Seq<char>) -> Seq<char> {
    seq!['"'] + escaped(s) + seq!['"']
}

/// Decimal digits of a natural number.
pub open spec fn nat_text(n: nat) -> Seq<char>
    decreases n,
{
    if n < 10 {
        seq![hex_digit(n as int)]
    } else {
        nat_text(n / 10).push(hex_digit((n % 10) as int))
    }
}

/// Decimal text of an integer, with a leading `-` when negative.
pub open spec fn int_text(i: int) -> Seq<char> {
    if i < 0 {
        seq!['-'] + nat_text((-i) as nat)
    } else {
        nat_text(i as nat)
    }
}

/// A GraphQL name node.
pub open spec fn name_json<T: Text>(t: T) -> Seq<char> {
    "{\"kind\":\"Name\",\"value\":"@ + quoted(t.text_view()) + "}"@
}

pub open spec fn value_json<T: Text>(v: Value<T>) -> Seq<char>
    decreases v,
{
    match v {
        Value::Variable(n) => "{\"kind\":\"Variable\",\"name\":"@ + name_json(n) + "}"@,
        Value::Int(i) => int_text(i as int),
        Value::String(s) => quoted(s@),
        Value::Boolean(b) => if b {
            "true"@
        } else {
            "false"@
        },
        Value::Null => "null"@,
        Value::Enum(e) => quoted(e.text_view()),
        Value::List(l) => "["@ + value_items(l@) + "]"@,
        Value::Object(e) => "{"@ + entry_items(e@) + "}"@,
    }
}

/// The values, separated by commas.
pub open spec fn value_items<T: Text>(s: Seq<Value<T>>) -> Seq<char>
    decreases s,
{
    if s.len() == 0 {
        seq![]
    } else if s.len() == 1 {
        value_json(s[0])
    } else {
        value_items(s.subrange(0, s.len() - 1)) + ","@ + value_json(s[s.len() - 1])
    }
}

/// The object entries as `"key":value`, separated by commas.
pub open spec fn entry_items<T: Text>(s: Seq<(T, Value<T>)>) -> Seq<char>
    decreases s,
{
    if s.len() == 0 {
        seq![]
    } else if s.len() == 1 {
        quoted(s[0].0.text_view()) + ":"@ + value_json(s[0].1)
    } else {
        entry_items(s.subrange(0, s.len() - 1)) + ","@ + quoted(s[s.len() - 1].0.text_view())
            + ":"@ + value_json(s[s.len() - 1].1)
    }
}

/// One argument as `{"name":...,"value":...}`.
pub open spec fn argument_json<T: Text>(a: (T, Value<T>)) -> Seq<char> {
    "{\"name\":"@ + name_json(a.0) + ",\"value\":"@ + value_json(a.1) + "}"@
}

pub open spec fn argument_items<T: Text>(s: Seq<(T, Value<T>)>) -> Seq<char>
    decreases s.len(),
{
    if s.len() == 0 {
        seq![]
    } else if s.len() == 1 {
        argument_json(s[0])
    } else {
        argument_items(s.drop_last()) + ","@ + argument_json(s.last())
    }
}

/// An argument list as a JSON array, in declared order.
pub open spec fn arguments_json<T: Text>(s: Seq<(T, Value<T>)>) -> Seq<char> {
    "["@ + argument_items(s) + "]"@
}

pub open spec fn directive_json<T: Text>(d: Directive<T>) -> Seq<char> {
    "{\"name\":"@ + name_json(d.name) + ",\"arguments\":"@ + arguments_json(d.arguments@) + "}"@
}

pub open spec fn directive_items<T: Text>(s: Seq<Directive<T>>) -> Seq<char>
    decreases s.len(),
{
    if s.len() == 0 {
        seq![]
    } else if s.len() == 1 {
        directive_json(s[0])
    } else {
        directive_items(s.drop_last()) + ","@ + directive_json(s.last())
    }
}

pub open spec fn directives_json<T: Text>(s: Seq<Directive<T>>) -> Seq<char> {
    "["@ + directive_items(s) + "]"@
}

pub open spec fn type_json<T: Text>(t: Type<T>) -> Seq<char>
    decreases t,
{
    match t {
        Type::NamedType(n) => "{\"kind\":\"NamedType\",\"name\":"@ + name_json(n) + "}"@,
        Type::ListType(b) => "{\"kind\":\"ListType\",\"type\":"@ + type_json(*b) + "}"@,
        Type::NonNullType(b) => "{\"kind\":\"NonNullType\",\"type\":"@ + type_json(*b) + "}"@,
    }
}

/// Relies on `ToString for i64` (through `Display`): decimal digits, with a
/// leading `-` when negative.
#[verifier::external_body]
fn decimal(n: i64) -> (r: String)
    ensures
        r@ == int_text(n as int),
{
    n.to_string()
}

fn hex_char(d: u32) -> (c: char)
    requires
        d < 16,
    ensures
        c == hex_digit(d as int),
{
    if d == 0 { '0' } else if d == 1 { '1' } else if d == 2 { '2' } else if d == 3 { '3' }
    else if d == 4 { '4' } else if d == 5 { '5' } else if d == 6 { '6' } else if d == 7 { '7' }
    else if d == 8 { '8' } else if d == 9 { '9' } else if d == 10 { 'a' } else if d == 11 { 'b' }
    else if d == 12 { 'c' } else if d == 13 { 'd' } else if d == 14 { 'e' } else { 'f' }
}

fn write_escaped_char(out: &mut String, c: char)
    ensures
        final(out)@ == old(out)@ + escape_char(c),
{
    let ghost start = out@;
    let n = c as u32;
    if c == '"' || c == '\\' {
        push_char(out, '\\');
        push_char(out, c);
    } else if c == '\n' {
        push_char(out, '\\');
        push_char(out, 'n');
    } else if c == '\r' {
        push_char(out, '\\');
        push_char(out, 'r');
    } else if c == '\t' {
        push_char(out, '\\');
        push_char(out, 't');
    } else if n < 32 {
        push_char(out, '\\');
        push_char(out, 'u');
        push_char(out, '0');
        push_char(out, '0');
        push_char(out, hex_char(n / 16));
        push_char(out, hex_char(n % 16));
    } else {
        push_char(out, c);
    }
    assert(out@ =~= start + escape_char(c));
}

/// Writes `s` as a JSON string.
pub fn write_quoted(out: &mut String, s: &str)
    ensures
        final(out)@ == old(out)@ + quoted(s@),
{
    let ghost start = out@;
    let cs = chars_of(s);
    push_char(out, '"');
    let mut i: usize = 0;
    while i < cs.len()
        invariant
            i <= cs@.len(),
            cs@ == s@,
            out@ == start + seq!['"'] + escaped(cs@.subrange(0, i as int)),
        decreases cs@.len() - i,
    {
        write_escaped_char(out, cs[i]);
        assert(cs@.subrange(0, i as int + 1).drop_last() =~= cs@.subrange(0, i as int));
        i = i + 1;
    }
    push_char(out, '"');
    assert(cs@.subrange(0, i as int) =~= s@);
    assert(out@ =~= start + quoted(s@));
}

/// Writes a name node.
pub fn write_name<T: Text>(out: &mut String, t: &T)
    ensures
        final(out)@ == old(out)@ + name_json(*t),
{
    let ghost start = out@;
    push_text(out, "{\"kind\":\"Name\",\"value\":");
    write_quoted(out, t.as_text());
    push_text(out, "}");
    assert(out@ =~= start + name_json(*t));
}

pub fn write_value<T: Text>(out: &mut String, v: &Value<T>)
    ensures
        final(out)@ == old(out)@ + value_json(*v),
    decreases v,
{
    let ghost start = out@;
    match v {
        Value::Variable(n) => {
            push_text(out, "{\"kind\":\"Variable\",\"name\":");
            write_name(out, n);
            push_text(out, "}");
        },
        Value::Int(i) => {
            let d = decimal(*i);
            push_text(out, d.as_str());
        },
        Value::String(s) => {
            write_quoted(out, s.as_str());
        },
        Value::Boolean(b) => {
            if *b {
                push_text(out, "true");
            } else {
                push_text(out, "false");
            }
        },
        Value::Null => {
            push_text(out, "null");
        },
        Value::Enum(e) => {
            write_quoted(out, e.as_text());
        },
        Value::List(l) => {
            push_text(out, "[");
            write_value_items(out, l);
            push_text(out, "]");
        },
        Value::Object(e) => {
            push_text(out, "{");
            write_entry_items(out, e);
            push_text(out, "}");
        },
    }
    assert(out@ =~= start + value_json(*v));
}

fn write_value_items<T: Text>(out: &mut String, s: &Vec<Value<T>>)
    ensures
        final(out)@ == old(out)@ + value_items(s@),
    decreases s,
{
    let ghost start = out@;
    let mut i: usize = 0;
    while i < s.len()
        invariant
            i <= s@.len(),
            out@ == start + value_items(s@.subrange(0, i as int)),
        decreases s@.len() - i,
    {
        let ghost before = out@;
        if i > 0 {
            push_text(out, ",");
        }
        proof {
            assert(decreases_to!(s => s@));
            assert(decreases_to!(s@ => s@[i as int]));
        }
        write_value(out, &s[i]);
        let ghost t = s@.subrange(0, i as int + 1);
        assert(t.subrange(0, t.len() - 1) =~= s@.subrange(0, i as int));
        assert(t[t.len() - 1] == s@[i as int]);
        assert(out@ =~= start + value_items(t));
        i = i + 1;
    }
    assert(s@.subrange(0, i as int) =~= s@);
}

fn write_entry_items<T: Text>(out: &mut String, s: &Vec<(T, Value<T>)>)
    ensures
        final(out)@ == old(out)@ + entry_items(s@),
    decreases s,
{
    let ghost start = out@;
    let mut i: usize = 0;
    while i < s.len()
        invariant
            i <= s@.len(),
            out@ == start + entry_items(s@.subrange(0, i as int)),
        decreases s@.len() - i,
    {
        if i > 0 {
            push_text(out, ",");
        }
        let entry = &s[i];
        write_quoted(out, entry.0.as_text());
        push_text(out, ":");
        proof {
            assert(decreases_to!(s => s@));
            assert(decreases_to!(s@ => s@[i as int]));
            assert(decreases_to!(s@[i as int] => s@[i as int].1));
        }
        write_value(out, &entry.1);
        let ghost t = s@.subrange(0, i as int + 1);
        assert(t.subrange(0, t.len() - 1) =~= s@.subrange(0, i as int));
        assert(t[t.len() - 1] == s@[i as int]);
        assert(out@ =~= start + entry_items(t));
        i = i + 1;
    }
    assert(s@.subrange(0, i as int) =~= s@);
}

fn write_argument_items<T: Text>(out: &mut String, s: &Vec<(T, Value<T>)>)
    ensures
        final(out)@ == old(out)@ + argument_items(s@),
{
    let ghost start = out@;
    let mut i: usize = 0;
    while i < s.len()
        invariant
            i <= s@.len(),
            out@ == start + argument_items(s@.subrange(0, i as int)),
        decreases s@.len() - i,
    {
        if i > 0 {
            push_text(out, ",");
        }
        let ghost mid = out@;
        let arg = &s[i];
        push_text(out, "{\"name\":");
        write_name(out, &arg.0);
        push_text(out, ",\"value\":");
        write_value(out, &arg.1);
        push_text(out, "}");
        assert(out@ =~= mid + argument_json(s@[i as int]));
        let ghost t = s@.subrange(0, i as int + 1);
        assert(t.drop_last() =~= s@.subrange(0, i as int));
        assert(out@ =~= start + argument_items(t));
        i = i + 1;
    }
    assert(s@.subrange(0, i as int) =~= s@);
}

/// Writes an argument list as a JSON array of `{"name":...,"value":...}`
/// objects, in declared order.
pub fn write_arguments<T: Text>(out: &mut String, s: &Vec<(T, Value<T>)>)
    ensures
        final(out)@ == old(out)@ + arguments_json(s@),
{
    let ghost start = out@;
    push_text(out, "[");
    write_argument_items(out, s);
    push_text(out, "]");
    assert(out@ =~= start + arguments_json(s@));
}

/// The JSON text of an argument list.
pub fn serialize_arguments<T: Text>(args: &Vec<(T, Value<T>)>) -> (r: String)
    ensures
        r@ == arguments_json(args@),
{
    let mut out = String::new();
    write_arguments(&mut out, args);
    assert(out@ =~= arguments_json(args@));
    out
}

pub fn write_directive<T: Text>(out: &mut String, d: &Directive<T>)
    ensures
        final(out)@ == old(out)@ + directive_json(*d),
{
    let ghost start = out@;
    push_text(out, "{\"name\":");
    write_name(out, &d.name);
    push_text(out, ",\"arguments\":");
    write_arguments(out, &d.arguments);
    push_text(out, "}");
    assert(out@ =~= start + directive_json(*d));
}

pub fn write_directives<T: Text>(out: &mut String, s: &Vec<Directive<T>>)
    ensures
        final(out)@ == old(out)@ + directives_json(s@),
{
    let ghost start = out@;
    push_text(out, "[");
    let mut i: usize = 0;
    while i < s.len()
        invariant
            i <= s@.len(),
            out@ == start + "["@ + directive_items(s@.subrange(0, i as int)),
        decreases s@.len() - i,
    {
        if i > 0 {
            push_text(out, ",");
        }
        write_directive(out, &s[i]);
        let ghost t = s@.subrange(0, i as int + 1);
        assert(t.drop_last() =~= s@.subrange(0, i as int));
        assert(out@ =~= start + "["@ + directive_items(t));
        i = i + 1;
    }
    assert(s@.subrange(0, i as int) =~= s@);
    push_text(out, "]");
    assert(out@ =~= start + directives_json(s@));
}

pub fn write_type<T: Text>(out: &mut String, t: &Type<T>)
    ensures
        final(out)@ == old(out)@ + type_json(*t),
    decreases t,
{
    let ghost start = out@;
    match t {
        Type::NamedType(n) => {
            push_text(out, "{\"kind\":\"NamedType\",\"name\":");
            write_name(out, n);
        },
        Type::ListType(b) => {
            push_text(out, "{\"kind\":\"ListType\",\"type\":");
            write_type(out, b);
        },
        Type::NonNullType(b) => {
            push_text(out, "{\"kind\":\"NonNullType\",\"type\":");
            write_type(out, b);
        },
    }
    push_text(out, "}");
    assert(out@ =~= start + type_json(*t));
}

} // verus!
