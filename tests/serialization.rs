use graphql_query::ast::{
    Definition, Document, Field, FragmentDefinition, FragmentSpread, InlineFragment, Mutation,
    OperationDefinition, Query, Selection, SelectionSet, Subscription, TypeCondition,
    VariableDefinition,
};
use graphql_query::json::{serialize_arguments, write_directive, write_type, write_value};
use graphql_query::query_json::{write_field, write_selection, write_type_condition};
use graphql_query::value::{insert_entry, Directive, Pos, Type, Value};

fn pos() -> Pos {
    Pos { line: 1, column: 1 }
}

fn empty_set() -> SelectionSet<String> {
    SelectionSet { span: (pos(), pos()), items: vec![] }
}

fn field(alias: Option<&str>, name: &str, arguments: Vec<(String, Value<String>)>, items: Vec<Selection<String>>) -> Field<String> {
    Field {
        position: pos(),
        alias: alias.map(|a| a.to_string()),
        name: name.to_string(),
        arguments,
        directives: vec![],
        selection_set: SelectionSet { span: (pos(), pos()), items },
    }
}

fn field_json(f: &Field<String>) -> String {
    let mut out = String::new();
    write_field(&mut out, f);
    out
}

fn value_json(v: &Value<String>) -> String {
    let mut out = String::new();
    write_value(&mut out, v);
    out
}

fn end_to_end_document() -> Document<String> {
    let sub = field(None, "sub", vec![], vec![]);
    let top = field(None, "field", vec![("x".to_string(), Value::Int(1))], vec![Selection::Field(sub)]);
    Document {
        definitions: vec![Definition::Operation(OperationDefinition::SelectionSet(SelectionSet {
            span: (pos(), pos()),
            items: vec![Selection::Field(top)],
        }))],
    }
}

const END_TO_END: &str = "{\"definitions\":[{\"kind\":\"OperationDefinition\",\"operation\":\"selectionSet\",\"selections\":[{\"kind\":\"Field\",\"name\":{\"kind\":\"Name\",\"value\":\"field\"},\"arguments\":[{\"name\":{\"kind\":\"Name\",\"value\":\"x\"},\"value\":1}],\"directives\":[],\"selectionSet\":{\"selections\":[{\"kind\":\"Field\",\"name\":{\"kind\":\"Name\",\"value\":\"sub\"},\"arguments\":[],\"directives\":[],\"selectionSet\":{\"selections\":[]}}]}}]}]}";

#[test]
fn end_to_end_anonymous_operation() {
    assert_eq!(end_to_end_document().to_json(), END_TO_END);
}

#[test]
fn serializing_twice_is_identical() {
    let d = end_to_end_document();
    let first = d.to_json();
    let second = d.to_json();
    assert_eq!(first, second);
    assert_eq!(first, END_TO_END);
}

#[test]
fn object_keys_in_key_order() {
    let v = Value::object_from(vec![
        ("b".to_string(), Value::Int(1)),
        ("a".to_string(), Value::Int(2)),
    ]);
    assert_eq!(value_json(&v), "{\"a\":2,\"b\":1}");
}

#[test]
fn object_later_duplicate_key_wins() {
    let v = Value::object_from(vec![
        ("k".to_string(), Value::Int(1)),
        ("c".to_string(), Value::Null),
        ("k".to_string(), Value::Boolean(true)),
    ]);
    assert_eq!(value_json(&v), "{\"c\":null,\"k\":true}");
}

#[test]
fn insert_entry_keeps_order() {
    let mut entries: Vec<(String, Value<String>)> = vec![];
    insert_entry(&mut entries, "m".to_string(), Value::Int(1));
    insert_entry(&mut entries, "z".to_string(), Value::Int(2));
    insert_entry(&mut entries, "a".to_string(), Value::Int(3));
    insert_entry(&mut entries, "m".to_string(), Value::Int(4));
    let keys: Vec<&str> = entries.iter().map(|e| e.0.as_str()).collect();
    assert_eq!(keys, vec!["a", "m", "z"]);
    assert_eq!(entries[1].1, Value::Int(4));
}

#[test]
fn argument_order_preserved() {
    let args = vec![("y".to_string(), Value::Int(2)), ("x".to_string(), Value::Int(1))];
    assert_eq!(
        serialize_arguments(&args),
        "[{\"name\":{\"kind\":\"Name\",\"value\":\"y\"},\"value\":2},{\"name\":{\"kind\":\"Name\",\"value\":\"x\"},\"value\":1}]"
    );
    let args = vec![("x".to_string(), Value::Int(1)), ("y".to_string(), Value::Int(2))];
    let f = field(None, "f", args, vec![]);
    assert!(field_json(&f).contains(
        "\"arguments\":[{\"name\":{\"kind\":\"Name\",\"value\":\"x\"},\"value\":1},{\"name\":{\"kind\":\"Name\",\"value\":\"y\"},\"value\":2}]"
    ));
}

#[test]
fn absent_alias_is_omitted() {
    let f = field(None, "f", vec![], vec![]);
    let text = field_json(&f);
    assert!(!text.contains("alias"));
    assert_eq!(
        text,
        "{\"kind\":\"Field\",\"name\":{\"kind\":\"Name\",\"value\":\"f\"},\"arguments\":[],\"directives\":[],\"selectionSet\":{\"selections\":[]}}"
    );
}

#[test]
fn present_alias_is_a_name() {
    let f = field(Some("a"), "f", vec![], vec![]);
    assert!(field_json(&f).starts_with("{\"kind\":\"Field\",\"alias\":{\"kind\":\"Name\",\"value\":\"a\"},\"name\":"));
}

#[test]
fn inline_fragment_discriminator() {
    let s = Selection::InlineFragment(InlineFragment {
        position: pos(),
        type_condition: Some(TypeCondition::On("User".to_string())),
        directives: vec![],
        selection_set: empty_set(),
    });
    let mut out = String::new();
    write_selection(&mut out, &s);
    assert_eq!(
        out,
        "{\"kind\":\"InlineFragment\",\"typeCondition\":{\"kind\":\"NamedType\",\"value\":{\"kind\":\"Name\",\"value\":\"User\"}},\"directives\":[],\"selectionSet\":{\"selections\":[]}}"
    );
}

#[test]
fn inline_fragment_without_condition() {
    let s = Selection::InlineFragment(InlineFragment {
        position: pos(),
        type_condition: None,
        directives: vec![],
        selection_set: empty_set(),
    });
    let mut out = String::new();
    write_selection(&mut out, &s);
    assert!(out.starts_with("{\"kind\":\"InlineFragment\",\"typeCondition\":null,"));
}

#[test]
fn named_query_discriminator() {
    let d = Document {
        definitions: vec![Definition::Operation(OperationDefinition::Query(Query {
            position: pos(),
            name: Some("Q".to_string()),
            variable_definitions: vec![VariableDefinition {
                position: pos(),
                name: "id".to_string(),
                var_type: Type::NonNullType(Box::new(Type::NamedType("ID".to_string()))),
                default_value: None,
            }],
            directives: vec![],
            selection_set: empty_set(),
        }))],
    };
    assert_eq!(
        d.to_json(),
        "{\"definitions\":[{\"kind\":\"OperationDefinition\",\"operation\":\"query\",\"name\":{\"kind\":\"Name\",\"value\":\"Q\"},\"variableDefinitions\":[{\"name\":{\"kind\":\"Name\",\"value\":\"id\"},\"varType\":{\"kind\":\"NonNullType\",\"type\":{\"kind\":\"NamedType\",\"name\":{\"kind\":\"Name\",\"value\":\"ID\"}}},\"defaultValue\":null}],\"directives\":[],\"selectionSet\":{\"selections\":[]}}]}"
    );
}

#[test]
fn anonymous_mutation_and_subscription() {
    let d = Document {
        definitions: vec![
            Definition::Operation(OperationDefinition::Mutation(Mutation {
                position: pos(),
                name: None,
                variable_definitions: vec![],
                directives: vec![],
                selection_set: empty_set(),
            })),
            Definition::Operation(OperationDefinition::Subscription(Subscription {
                position: pos(),
                name: Some("S".to_string()),
                variable_definitions: vec![],
                directives: vec![],
                selection_set: empty_set(),
            })),
        ],
    };
    assert_eq!(
        d.to_json(),
        "{\"definitions\":[{\"kind\":\"OperationDefinition\",\"operation\":\"mutation\",\"variableDefinitions\":[],\"directives\":[],\"selectionSet\":{\"selections\":[]}},{\"kind\":\"OperationDefinition\",\"operation\":\"subscription\",\"name\":{\"kind\":\"Name\",\"value\":\"S\"},\"variableDefinitions\":[],\"directives\":[],\"selectionSet\":{\"selections\":[]}}]}"
    );
}

#[test]
fn fragment_definition_and_spread() {
    let spread = Selection::FragmentSpread(FragmentSpread {
        position: pos(),
        fragment_name: "F".to_string(),
        directives: vec![Directive { position: pos(), name: "skip".to_string(), arguments: vec![("if".to_string(), Value::Variable("v".to_string()))] }],
    });
    let d = Document {
        definitions: vec![Definition::Fragment(FragmentDefinition {
            position: pos(),
            name: "F".to_string(),
            type_condition: TypeCondition::On("T".to_string()),
            directives: vec![],
            selection_set: SelectionSet { span: (pos(), pos()), items: vec![spread] },
        })],
    };
    assert_eq!(
        d.to_json(),
        "{\"definitions\":[{\"kind\":\"FragmentDefinition\",\"name\":{\"kind\":\"Name\",\"value\":\"F\"},\"typeCondition\":{\"kind\":\"NamedType\",\"value\":{\"kind\":\"Name\",\"value\":\"T\"}},\"directives\":[],\"selectionSet\":{\"selections\":[{\"kind\":\"FragmentSpread\",\"fragmentName\":{\"kind\":\"Name\",\"value\":\"F\"},\"directives\":[{\"name\":{\"kind\":\"Name\",\"value\":\"skip\"},\"arguments\":[{\"name\":{\"kind\":\"Name\",\"value\":\"if\"},\"value\":{\"kind\":\"Variable\",\"name\":{\"kind\":\"Name\",\"value\":\"v\"}}}]}]}]}}]}"
    );
}

#[test]
fn positions_are_not_written() {
    let mut f = field(None, "f", vec![], vec![]);
    let before = field_json(&f);
    f.position = Pos { line: 40, column: 7 };
    f.selection_set.span = (Pos { line: 2, column: 3 }, Pos { line: 9, column: 9 });
    assert_eq!(field_json(&f), before);
}

#[test]
fn owned_tree_survives_into_static() {
    let d = end_to_end_document();
    let converted = end_to_end_document().into_static();
    assert_eq!(converted, d);
    assert_eq!(converted.to_json(), END_TO_END);
}

#[test]
fn borrowed_tree_serializes_like_owned() {
    let p = Pos { line: 1, column: 1 };
    let sub: Field<&str> = Field { position: p, alias: None, name: "sub", arguments: vec![], directives: vec![], selection_set: SelectionSet { span: (p, p), items: vec![] } };
    let top: Field<&str> = Field {
        position: p,
        alias: None,
        name: "field",
        arguments: vec![("x", Value::Int(1))],
        directives: vec![],
        selection_set: SelectionSet { span: (p, p), items: vec![Selection::Field(sub)] },
    };
    let d: Document<&str> = Document {
        definitions: vec![Definition::Operation(OperationDefinition::SelectionSet(SelectionSet { span: (p, p), items: vec![Selection::Field(top)] }))],
    };
    assert_eq!(d.to_json(), END_TO_END);
}

#[test]
fn scalar_values() {
    assert_eq!(value_json(&Value::Int(-1207)), "-1207");
    assert_eq!(value_json(&Value::Int(0)), "0");
    assert_eq!(value_json(&Value::Int(i64::MIN)), "-9223372036854775808");
    assert_eq!(value_json(&Value::Boolean(false)), "false");
    assert_eq!(value_json(&Value::Null), "null");
    assert_eq!(value_json(&Value::Enum("RED".to_string())), "\"RED\"");
    assert_eq!(
        value_json(&Value::List(vec![Value::Int(1), Value::String("s".to_string()), Value::List(vec![])])),
        "[1,\"s\",[]]"
    );
}

#[test]
fn strings_are_escaped() {
    let v = Value::String("a\"b\\c\nd\te\u{1}é".to_string());
    assert_eq!(value_json(&v), "\"a\\\"b\\\\c\\nd\\te\\u0001é\"");
}

#[test]
fn list_and_named_types() {
    let t: Type<String> = Type::ListType(Box::new(Type::NamedType("Int".to_string())));
    let mut out = String::new();
    write_type(&mut out, &t);
    assert_eq!(out, "{\"kind\":\"ListType\",\"type\":{\"kind\":\"NamedType\",\"name\":{\"kind\":\"Name\",\"value\":\"Int\"}}}");
}

#[test]
fn type_condition_shape() {
    let mut out = String::new();
    write_type_condition(&mut out, &TypeCondition::On("Dog".to_string()));
    assert_eq!(out, "{\"kind\":\"NamedType\",\"value\":{\"kind\":\"Name\",\"value\":\"Dog\"}}");
}

#[test]
fn directive_shape() {
    let d: Directive<String> = Directive { position: pos(), name: "include".to_string(), arguments: vec![] };
    let mut out = String::new();
    write_directive(&mut out, &d);
    assert_eq!(out, "{\"name\":{\"kind\":\"Name\",\"value\":\"include\"},\"arguments\":[]}");
}


#[test]
fn object_independent_of_insertion_order() {
    let one = Value::object_from(vec![
        ("x".to_string(), Value::Int(1)),
        ("ab".to_string(), Value::Int(2)),
        ("a".to_string(), Value::Int(3)),
    ]);
    let two = Value::object_from(vec![
        ("a".to_string(), Value::Int(3)),
        ("x".to_string(), Value::Int(1)),
        ("ab".to_string(), Value::Int(2)),
    ]);
    assert_eq!(one, two);
    assert_eq!(value_json(&one), "{\"a\":3,\"ab\":2,\"x\":1}");
}

#[test]
fn high_control_character_escaped() {
    let v: Value<String> = Value::String("\u{1f}".to_string());
    assert_eq!(value_json(&v), "\"\\u001f\"");
}
