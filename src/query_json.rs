//! JSON text of the query-document tree. Every definition and selection
//! carries a `"kind"` tag, operations an `"operation"` tag; keys are camelCase.
use vstd::prelude::*;
use crate::ast::{
    Definition, Document, Field, FragmentDefinition, FragmentSpread, InlineFragment,
    OperationDefinition, Query, Selection, SelectionSet, TypeCondition, VariableDefinition,
};
use crate::json::{
    arguments_json, directives_json, name_json, type_json, value_json, write_arguments,
    write_directives, write_name, write_type, write_value,
};
use crate::text::{Text, push_text};
use crate::value::Directive;

verus! {

/// A type condition as `{"kind":"NamedType","value":<name>}`.
pub open spec fn type_condition_json<T: Text>(c: TypeCondition<T>) -> Seq<char> {
    match c {
        TypeCondition::On(n) => "{\"kind\":\"NamedType\",\"value\":"@ + name_json(n) + "}"@,
    }
}

/// `,"<key>":<name>` for a present name; nothing for an absent one.
pub open spec fn optional_name_entry<T: Text>(key: Seq<char>, n: Option<T>) -> Seq<char> {
    match n {
        Some(t) => ","@ + key + name_json(t),
        None => seq![],
    }
}

pub open spec fn variable_definition_json<T: Text>(v: VariableDefinition<T>) -> Seq<char> {
    "{\"name\":"@ + name_json(v.name) + ",\"varType\":"@ + type_json(v.var_type)
        + ",\"defaultValue\":"@ + match v.default_value {
        Some(x) => value_json(x),
        None => "null"@,
    } + "}"@
}

pub open spec fn variable_definition_items<T: Text>(s: Seq<VariableDefinition<T>>) -> Seq<char>
    decreases s.len(),
{
    if s.len() == 0 {
        seq![]
    } else if s.len() == 1 {
        variable_definition_json(s[0])
    } else {
        variable_definition_items(s.drop_last()) + ","@ + variable_definition_json(s.last())
    }
}

pub open spec fn field_json<T: Text>(f: Field<T>) -> Seq<char>
    decreases f,
{
    "{\"kind\":\"Field\""@ + optional_name_entry("\"alias\":"@, f.alias) + ",\"name\":"@
        + name_json(f.name) + ",\"arguments\":"@ + arguments_json(f.arguments@)
        + ",\"directives\":"@ + directives_json(f.directives@) + ",\"selectionSet\":"@
        + selection_set_json(f.selection_set) + "}"@
}

pub open spec fn fragment_spread_json<T: Text>(p: FragmentSpread<T>) -> Seq<char> {
    "{\"kind\":\"FragmentSpread\",\"fragmentName\":"@ + name_json(p.fragment_name)
        + ",\"directives\":"@ + directives_json(p.directives@) + "}"@
}

pub open spec fn inline_fragment_json<T: Text>(i: InlineFragment<T>) -> Seq<char>
    decreases i,
{
    "{\"kind\":\"InlineFragment\",\"typeCondition\":"@ + match i.type_condition {
        Some(c) => type_condition_json(c),
        None => "null"@,
    } + ",\"directives\":"@ + directives_json(i.directives@) + ",\"selectionSet\":"@
        + selection_set_json(i.selection_set) + "}"@
}

pub open spec fn selection_json<T: Text>(s: Selection<T>) -> Seq<char>
    decreases s,
{
    match s {
        Selection::Field(f) => field_json(f),
        Selection::FragmentSpread(p) => fragment_spread_json(p),
        Selection::InlineFragment(i) => inline_fragment_json(i),
    }
}

/// A selection set as `{"selections":[...]}`.
pub open spec fn selection_set_json<T: Text>(s: SelectionSet<T>) -> Seq<char>
    decreases s,
{
    "{\"selections\":["@ + selection_items(s.items@) + "]}"@
}

pub open spec fn selection_items<T: Text>(s: Seq<Selection<T>>) -> Seq<char>
    decreases s,
{
    if s.len() == 0 {
        seq![]
    } else if s.len() == 1 {
        selection_json(s[0])
    } else {
        selection_items(s.subrange(0, s.len() - 1)) + ","@ + selection_json(s[s.len() - 1])
    }
}

/// The entries that a query, mutation or subscription adds after its tag.
pub open spec fn named_operation_json<T: Text>(
    name: Option<T>,
    vars: Seq<VariableDefinition<T>>,
    dirs: Seq<Directive<T>>,
    set: SelectionSet<T>,
) -> Seq<char> {
    optional_name_entry("\"name\":"@, name) + ",\"variableDefinitions\":["@
        + variable_definition_items(vars) + "],\"directives\":"@ + directives_json(dirs)
        + ",\"selectionSet\":"@ + selection_set_json(set)
}

/// The entries of an operation, starting with its `"operation"` tag.
pub open spec fn operation_entries<T: Text>(o: OperationDefinition<T>) -> Seq<char> {
    match o {
        OperationDefinition::SelectionSet(s) => "\"operation\":\"selectionSet\",\"selections\":["@
            + selection_items(s.items@) + "]"@,
        OperationDefinition::Query(q) => "\"operation\":\"query\""@ + named_operation_json(
            q.name,
            q.variable_definitions@,
            q.directives@,
            q.selection_set,
        ),
        OperationDefinition::Mutation(m) => "\"operation\":\"mutation\""@ + named_operation_json(
            m.name,
            m.variable_definitions@,
            m.directives@,
            m.selection_set,
        ),
        OperationDefinition::Subscription(s) => "\"operation\":\"subscription\""@
            + named_operation_json(s.name, s.variable_definitions@, s.directives@, s.selection_set),
    }
}

pub open spec fn fragment_json<T: Text>(f: FragmentDefinition<T>) -> Seq<char> {
    "{\"kind\":\"FragmentDefinition\",\"name\":"@ + name_json(f.name) + ",\"typeCondition\":"@
        + type_condition_json(f.type_condition) + ",\"directives\":"@ + directives_json(
        f.directives@,
    ) + ",\"selectionSet\":"@ + selection_set_json(f.selection_set) + "}"@
}

pub open spec fn definition_json<T: Text>(d: Definition<T>) -> Seq<char> {
    match d {
        Definition::Operation(o) => "{\"kind\":\"OperationDefinition\","@ + operation_entries(o)
            + "}"@,
        Definition::Fragment(f) => fragment_json(f),
    }
}

pub open spec fn definition_items<T: Text>(s: Seq<Definition<T>>) -> Seq<char>
    decreases s.len(),
{
    if s.len() == 0 {
        seq![]
    } else if s.len() == 1 {
        definition_json(s[0])
    } else {
        definition_items(s.drop_last()) + ","@ + definition_json(s.last())
    }
}

/// A document as `{"definitions":[...]}`.
pub open spec fn document_json<T: Text>(d: Document<T>) -> Seq<char> {
    "{\"definitions\":["@ + definition_items(d.definitions@) + "]}"@
}

pub fn write_type_condition<T: Text>(out: &mut String, c: &TypeCondition<T>)
    ensures
        final(out)@ == old(out)@ + type_condition_json(*c),
{
    let ghost start = out@;
    match c {
        TypeCondition::On(n) => {
            push_text(out, "{\"kind\":\"NamedType\",\"value\":");
            write_name(out, n);
            push_text(out, "}");
        },
    }
    assert(out@ =~= start + type_condition_json(*c));
}

fn write_optional_name_entry<T: Text>(out: &mut String, key: &str, n: &Option<T>)
    ensures
        final(out)@ == old(out)@ + optional_name_entry(key@, *n),
{
    let ghost start = out@;
    match n {
        Some(t) => {
            push_text(out, ",");
            push_text(out, key);
            write_name(out, t);
        },
        None => {},
    }
    assert(out@ =~= start + optional_name_entry(key@, *n));
}

pub fn write_variable_definition<T: Text>(out: &mut String, v: &VariableDefinition<T>)
    ensures
        final(out)@ == old(out)@ + variable_definition_json(*v),
{
    let ghost start = out@;
    push_text(out, "{\"name\":");
    write_name(out, &v.name);
    push_text(out, ",\"varType\":");
    write_type(out, &v.var_type);
    push_text(out, ",\"defaultValue\":");
    match &v.default_value {
        Some(x) => write_value(out, x),
        None => push_text(out, "null"),
    }
    push_text(out, "}");
    assert(out@ =~= start + variable_definition_json(*v));
}

fn write_variable_definition_items<T: Text>(out: &mut String, s: &Vec<VariableDefinition<T>>)
    ensures
        final(out)@ == old(out)@ + variable_definition_items(s@),
{
    let ghost start = out@;
    let mut i: usize = 0;
    while i < s.len()
        invariant
            i <= s@.len(),
            out@ == start + variable_definition_items(s@.subrange(0, i as int)),
        decreases s@.len() - i,
    {
        if i > 0 {
            push_text(out, ",");
        }
        write_variable_definition(out, &s[i]);
        let ghost t = s@.subrange(0, i as int + 1);
        assert(t.drop_last() =~= s@.subrange(0, i as int));
        assert(out@ =~= start + variable_definition_items(t));
        i = i + 1;
    }
    assert(s@.subrange(0, i as int) =~= s@);
}

#[verifier::rlimit(100)]
pub fn write_field<T: Text>(out: &mut String, f: &Field<T>)
    ensures
        final(out)@ == old(out)@ + field_json(*f),
    decreases f,
{
    let ghost start = out@;
    push_text(out, "{\"kind\":\"Field\"");
    write_optional_name_entry(out, "\"alias\":", &f.alias);
    push_text(out, ",\"name\":");
    write_name(out, &f.name);
    push_text(out, ",\"arguments\":");
    write_arguments(out, &f.arguments);
    push_text(out, ",\"directives\":");
    write_directives(out, &f.directives);
    push_text(out, ",\"selectionSet\":");
    write_selection_set(out, &f.selection_set);
    push_text(out, "}");
    assert(out@ =~= start + field_json(*f));
}

pub fn write_fragment_spread<T: Text>(out: &mut String, p: &FragmentSpread<T>)
    ensures
        final(out)@ == old(out)@ + fragment_spread_json(*p),
{
    let ghost start = out@;
    push_text(out, "{\"kind\":\"FragmentSpread\",\"fragmentName\":");
    write_name(out, &p.fragment_name);
    push_text(out, ",\"directives\":");
    write_directives(out, &p.directives);
    push_text(out, "}");
    assert(out@ =~= start + fragment_spread_json(*p));
}

#[verifier::rlimit(100)]
pub fn write_inline_fragment<T: Text>(out: &mut String, i: &InlineFragment<T>)
    ensures
        final(out)@ == old(out)@ + inline_fragment_json(*i),
    decreases i,
{
    let ghost start = out@;
    push_text(out, "{\"kind\":\"InlineFragment\",\"typeCondition\":");
    match &i.type_condition {
        Some(c) => write_type_condition(out, c),
        None => push_text(out, "null"),
    }
    push_text(out, ",\"directives\":");
    write_directives(out, &i.directives);
    push_text(out, ",\"selectionSet\":");
    write_selection_set(out, &i.selection_set);
    push_text(out, "}");
    assert(out@ =~= start + inline_fragment_json(*i));
}

pub fn write_selection<T: Text>(out: &mut String, s: &Selection<T>)
    ensures
        final(out)@ == old(out)@ + selection_json(*s),
    decreases s,
{
    match s {
        Selection::Field(f) => write_field(out, f),
        Selection::FragmentSpread(p) => write_fragment_spread(out, p),
        Selection::InlineFragment(i) => write_inline_fragment(out, i),
    }
}

pub fn write_selection_set<T: Text>(out: &mut String, s: &SelectionSet<T>)
    ensures
        final(out)@ == old(out)@ + selection_set_json(*s),
    decreases s,
{
    let ghost start = out@;
    push_text(out, "{\"selections\":[");
    write_selection_items(out, &s.items);
    push_text(out, "]}");
    assert(out@ =~= start + selection_set_json(*s));
}

fn write_selection_items<T: Text>(out: &mut String, s: &Vec<Selection<T>>)
    ensures
        final(out)@ == old(out)@ + selection_items(s@),
    decreases s,
{
    let ghost start = out@;
    let mut i: usize = 0;
    while i < s.len()
        invariant
            i <= s@.len(),
            out@ == start + selection_items(s@.subrange(0, i as int)),
        decreases s@.len() - i,
    {
        if i > 0 {
            push_text(out, ",");
        }
        proof {
            assert(decreases_to!(s => s@));
            assert(decreases_to!(s@ => s@[i as int]));
        }
        write_selection(out, &s[i]);
        let ghost t = s@.subrange(0, i as int + 1);
        assert(t.subrange(0, t.len() - 1) =~= s@.subrange(0, i as int));
        assert(t[t.len() - 1] == s@[i as int]);
        assert(out@ =~= start + selection_items(t));
        i = i + 1;
    }
    assert(s@.subrange(0, i as int) =~= s@);
}

fn write_named_operation<T: Text>(
    out: &mut String,
    name: &Option<T>,
    vars: &Vec<VariableDefinition<T>>,
    dirs: &Vec<Directive<T>>,
    set: &SelectionSet<T>,
)
    ensures
        final(out)@ == old(out)@ + named_operation_json(*name, vars@, dirs@, *set),
{
    let ghost start = out@;
    write_optional_name_entry(out, "\"name\":", name);
    push_text(out, ",\"variableDefinitions\":[");
    write_variable_definition_items(out, vars);
    push_text(out, "],\"directives\":");
    write_directives(out, dirs);
    push_text(out, ",\"selectionSet\":");
    write_selection_set(out, set);
    assert(out@ =~= start + named_operation_json(*name, vars@, dirs@, *set));
}

fn write_operation_entries<T: Text>(out: &mut String, o: &OperationDefinition<T>)
    ensures
        final(out)@ == old(out)@ + operation_entries(*o),
{
    let ghost start = out@;
    match o {
        OperationDefinition::SelectionSet(s) => {
            push_text(out, "\"operation\":\"selectionSet\",\"selections\":[");
            write_selection_items(out, &s.items);
            push_text(out, "]");
        },
        OperationDefinition::Query(q) => {
            push_text(out, "\"operation\":\"query\"");
            write_named_operation(
                out,
                &q.name,
                &q.variable_definitions,
                &q.directives,
                &q.selection_set,
            );
        },
        OperationDefinition::Mutation(m) => {
            push_text(out, "\"operation\":\"mutation\"");
            write_named_operation(
                out,
                &m.name,
                &m.variable_definitions,
                &m.directives,
                &m.selection_set,
            );
        },
        OperationDefinition::Subscription(s) => {
            push_text(out, "\"operation\":\"subscription\"");
            write_named_operation(
                out,
                &s.name,
                &s.variable_definitions,
                &s.directives,
                &s.selection_set,
            );
        },
    }
    assert(out@ =~= start + operation_entries(*o));
}

#[verifier::rlimit(100)]
pub fn write_definition<T: Text>(out: &mut String, d: &Definition<T>)
    ensures
        final(out)@ == old(out)@ + definition_json(*d),
{
    let ghost start = out@;
    match d {
        Definition::Operation(o) => {
            push_text(out, "{\"kind\":\"OperationDefinition\",");
            write_operation_entries(out, o);
            push_text(out, "}");
        },
        Definition::Fragment(f) => {
            push_text(out, "{\"kind\":\"FragmentDefinition\",\"name\":");
            write_name(out, &f.name);
            push_text(out, ",\"typeCondition\":");
            write_type_condition(out, &f.type_condition);
            push_text(out, ",\"directives\":");
            write_directives(out, &f.directives);
            push_text(out, ",\"selectionSet\":");
            write_selection_set(out, &f.selection_set);
            push_text(out, "}");
        },
    }
    assert(out@ =~= start + definition_json(*d));
}

fn write_definition_items<T: Text>(out: &mut String, s: &Vec<Definition<T>>)
    ensures
        final(out)@ == old(out)@ + definition_items(s@),
{
    let ghost start = out@;
    let mut i: usize = 0;
    while i < s.len()
        invariant
            i <= s@.len(),
            out@ == start + definition_items(s@.subrange(0, i as int)),
        decreases s@.len() - i,
    {
        if i > 0 {
            push_text(out, ",");
        }
        write_definition(out, &s[i]);
        let ghost t = s@.subrange(0, i as int + 1);
        assert(t.drop_last() =~= s@.subrange(0, i as int));
        assert(out@ =~= start + definition_items(t));
        i = i + 1;
    }
    assert(s@.subrange(0, i as int) =~= s@);
}

pub fn write_document<T: Text>(out: &mut String, d: &Document<T>)
    ensures
        final(out)@ == old(out)@ + document_json(*d),
{
    let ghost start = out@;
    push_text(out, "{\"definitions\":[");
    write_definition_items(out, &d.definitions);
    push_text(out, "]}");
    assert(out@ =~= start + document_json(*d));
}

impl<T: Text> Document<T> {
    /// The document as JSON text.
    pub fn to_json(&self) -> (r: String)
        ensures
            r@ == document_json(*self),
    {
        let mut out = String::new();
        write_document(&mut out, self);
        assert(out@ =~= document_json(*self));
        out
    }
}

/// Serialization is deterministic: equal documents give the same text, so
/// serializing one document twice gives byte-identical output.
pub proof fn lemma_serialization_deterministic<T: Text>(a: Document<T>, b: Document<T>)
    requires
        a == b,
    ensures
        document_json(a) == document_json(b),
{
}

/// A named query is written as an `OperationDefinition` whose `"operation"`
/// tag is `"query"`.
pub proof fn lemma_query_discriminators<T: Text>(q: Query<T>)
    ensures
        exists|rest: Seq<char>|
            definition_json(Definition::Operation(OperationDefinition::Query(q)))
                == "{\"kind\":\"OperationDefinition\","@ + "\"operation\":\"query\""@ + rest,
{
    let a = "{\"kind\":\"OperationDefinition\","@;
    let b = "\"operation\":\"query\""@;
    let n = named_operation_json(q.name, q.variable_definitions@, q.directives@, q.selection_set);
    let c = "}"@;
    assert(definition_json(Definition::Operation(OperationDefinition::Query(q))) == a + (b + n) + c);
    assert(a + (b + n) + c =~= a + b + (n + c));
}

/// An inline fragment is written with the tag `"kind":"InlineFragment"`.
pub proof fn lemma_inline_fragment_discriminator<T: Text>(i: InlineFragment<T>)
    ensures
        exists|rest: Seq<char>|
            selection_json(Selection::InlineFragment(i))
                == "{\"kind\":\"InlineFragment\",\"typeCondition\":"@ + rest,
{
    let a = "{\"kind\":\"InlineFragment\",\"typeCondition\":"@;
    let m = match i.type_condition {
        Some(c) => type_condition_json(c),
        None => "null"@,
    };
    let b = ",\"directives\":"@ + directives_json(i.directives@) + ",\"selectionSet\":"@
        + selection_set_json(i.selection_set) + "}"@;
    assert(inline_fragment_json(i) == a + m + ",\"directives\":"@ + directives_json(i.directives@)
        + ",\"selectionSet\":"@ + selection_set_json(i.selection_set) + "}"@);
    assert(inline_fragment_json(i) =~= a + (m + b));
}

} // verus!
