//! The query-document tree. Every node owns its children; all text in one
//! tree has the same storage `T`, borrowed (`&str`) or owned (`String`).
use vstd::prelude::*;
use crate::text::Text;
use crate::value::{Directive, Pos, Type, Value};

verus! {

/// Root of a query document: its definitions in source order.
#[derive(Debug, PartialEq)]
pub struct Document<T: Text> {
    pub definitions: Vec<Definition<T>>,
}

impl Document<String> {
    /// The same tree, now free of the source buffer. Only a tree whose text
    /// is owned offers this: a tree of borrowed slices has no such method.
    pub fn into_static(self) -> (r: Document<String>)
        ensures
            r == self,
    {
        self
    }
}

#[derive(Debug, PartialEq)]
pub enum Definition<T: Text> {
    Operation(OperationDefinition<T>),
    Fragment(FragmentDefinition<T>),
}

#[derive(Debug, PartialEq)]
pub struct FragmentDefinition<T: Text> {
    pub position: Pos,
    pub name: T,
    pub type_condition: TypeCondition<T>,
    pub directives: Vec<Directive<T>>,
    pub selection_set: SelectionSet<T>,
}

/// An operation: the anonymous shorthand (a bare selection set), or a
/// query, mutation or subscription.
#[derive(Debug, PartialEq)]
pub enum OperationDefinition<T: Text> {
    SelectionSet(SelectionSet<T>),
    Query(Query<T>),
    Mutation(Mutation<T>),
    Subscription(Subscription<T>),
}

#[derive(Debug, PartialEq)]
pub struct Query<T: Text> {
    pub position: Pos,
    pub name: Option<T>,
    pub variable_definitions: Vec<VariableDefinition<T>>,
    pub directives: Vec<Directive<T>>,
    pub selection_set: SelectionSet<T>,
}

#[derive(Debug, PartialEq)]
pub struct Mutation<T: Text> {
    pub position: Pos,
    pub name: Option<T>,
    pub variable_definitions: Vec<VariableDefinition<T>>,
    pub directives: Vec<Directive<T>>,
    pub selection_set: SelectionSet<T>,
}

#[derive(Debug, PartialEq)]
pub struct Subscription<T: Text> {
    pub position: Pos,
    pub name: Option<T>,
    pub variable_definitions: Vec<VariableDefinition<T>>,
    pub directives: Vec<Directive<T>>,
    pub selection_set: SelectionSet<T>,
}

/// Selections in source order; the span is for diagnostics only.
#[derive(Debug, PartialEq)]
pub struct SelectionSet<T: Text> {
    pub span: (Pos, Pos),
    pub items: Vec<Selection<T>>,
}

#[derive(Debug, PartialEq)]
pub struct VariableDefinition<T: Text> {
    pub position: Pos,
    pub name: T,
    pub var_type: Type<T>,
    pub default_value: Option<Value<T>>,
}

#[derive(Debug, PartialEq)]
pub enum Selection<T: Text> {
    Field(Field<T>),
    FragmentSpread(FragmentSpread<T>),
    InlineFragment(InlineFragment<T>),
}

/// A field with its arguments in declared order.
#[derive(Debug, PartialEq)]
pub struct Field<T: Text> {
    pub position: Pos,
    pub alias: Option<T>,
    pub name: T,
    pub arguments: Vec<(T, Value<T>)>,
    pub directives: Vec<Directive<T>>,
    pub selection_set: SelectionSet<T>,
}

#[derive(Debug, PartialEq)]
pub struct FragmentSpread<T: Text> {
    pub position: Pos,
    pub fragment_name: T,
    pub directives: Vec<Directive<T>>,
}

/// The named type that a fragment applies to.
#[derive(Debug, PartialEq)]
pub enum TypeCondition<T: Text> {
    On(T),
}

#[derive(Debug, PartialEq)]
pub struct InlineFragment<T: Text> {
    pub position: Pos,
    pub type_condition: Option<TypeCondition<T>>,
    pub directives: Vec<Directive<T>>,
    pub selection_set: SelectionSet<T>,
}

} // verus!
