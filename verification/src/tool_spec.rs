//! What models are told of tools.
use vstd::prelude::*;

use crate::text::texts;

verus! {

/// The namespace of every tool of this library.
pub const NAMESPACE: &'static str = "saffron";

/// What a property holds.
#[derive(Debug)]
pub enum PropertyKind {
    Text,
    Integer,
    Number,
    /// One of these texts.
    OneOf(Vec<String>),
}

/// The mathematical content of a [`PropertyKind`].
pub enum KindView {
    Text,
    Integer,
    Number,
    OneOf(Seq<Seq<char>>),
}

impl View for PropertyKind {
    type V = KindView;

    open spec fn view(&self) -> KindView {
        match self {
            PropertyKind::Text => KindView::Text,
            PropertyKind::Integer => KindView::Integer,
            PropertyKind::Number => KindView::Number,
            PropertyKind::OneOf(choices) => KindView::OneOf(texts(choices@)),
        }
    }
}

/// A property of an object.
#[derive(Debug)]
pub struct Property {
    pub name: String,
    pub kind: PropertyKind,
    pub description: String,
}

/// The mathematical content of a [`Property`].
pub struct PropertyView {
    pub name: Seq<char>,
    pub kind: KindView,
    pub description: Seq<char>,
}

impl View for Property {
    type V = PropertyView;

    open spec fn view(&self) -> PropertyView {
        PropertyView { name: self.name@, kind: self.kind@, description: self.description@ }
    }
}

/// The content of properties.
pub open spec fn property_views(properties: Seq<Property>) -> Seq<PropertyView> {
    properties.map_values(|property: Property| property@)
}

/// The shape of an object.  Other properties than those listed are not
/// admitted.
#[derive(Debug)]
pub struct ObjectSchema {
    pub description: Option<String>,
    /// The properties, in ascending order of their names.
    pub properties: Vec<Property>,
    /// The properties that must be there, if any has to.
    pub required: Option<Vec<String>>,
}

/// The mathematical content of an [`ObjectSchema`].
pub struct SchemaView {
    pub description: Option<Seq<char>>,
    pub properties: Seq<PropertyView>,
    pub required: Option<Seq<Seq<char>>>,
}

impl View for ObjectSchema {
    type V = SchemaView;

    open spec fn view(&self) -> SchemaView {
        SchemaView {
            description: match self.description {
                Some(description) => Some(description@),
                None => None,
            },
            properties: property_views(self.properties@),
            required: match self.required {
                Some(required) => Some(texts(required@)),
                None => None,
            },
        }
    }
}

/// What a model is told of a tool.
#[derive(Debug)]
pub struct ToolSpec {
    pub namespace: String,
    pub namespace_description: String,
    pub name: String,
    pub description: String,
    pub parameters: ObjectSchema,
    pub output: Option<ObjectSchema>,
}

/// The mathematical content of a [`ToolSpec`].
pub struct ToolSpecView {
    pub namespace: Seq<char>,
    pub namespace_description: Seq<char>,
    pub name: Seq<char>,
    pub description: Seq<char>,
    pub parameters: SchemaView,
    pub output: Option<SchemaView>,
}

impl View for ToolSpec {
    type V = ToolSpecView;

    open spec fn view(&self) -> ToolSpecView {
        ToolSpecView {
            namespace: self.namespace@,
            namespace_description: self.namespace_description@,
            name: self.name@,
            description: self.description@,
            parameters: self.parameters@,
            output: match self.output {
                Some(output) => Some(output@),
                None => None,
            },
        }
    }
}

/// A tool name within its namespace.
#[derive(Debug)]
pub struct ToolName {
    pub namespace: String,
    pub name: String,
}

/// Names a tool of this library.
pub fn saffron_tool(name: &str) -> (tool: ToolName)
    ensures
        tool.namespace@ == NAMESPACE@,
        tool.name@ == name@,
{
    ToolName { namespace: NAMESPACE.to_string(), name: name.to_string() }
}

/// What a property is.
pub open spec fn property_of(name: &str, kind: KindView, description: Seq<char>) -> PropertyView {
    PropertyView { name: name@, kind, description }
}

/// Describes a property that holds a text.
pub fn text_property(name: &str, description: &str) -> (property: Property)
    ensures
        property@ == property_of(name, KindView::Text, description@),
{
    Property {
        name: name.to_string(),
        kind: PropertyKind::Text,
        description: description.to_string(),
    }
}

/// Describes a property that holds an integer.
pub fn integer_property(name: &str, description: &str) -> (property: Property)
    ensures
        property@ == property_of(name, KindView::Integer, description@),
{
    Property {
        name: name.to_string(),
        kind: PropertyKind::Integer,
        description: description.to_string(),
    }
}

/// Describes a property that holds a number.
pub fn number_property(name: &str, description: &str) -> (property: Property)
    ensures
        property@ == property_of(name, KindView::Number, description@),
{
    Property {
        name: name.to_string(),
        kind: PropertyKind::Number,
        description: description.to_string(),
    }
}

/// Describes a property that holds one of some texts.
pub fn choice_property(name: &str, choices: Vec<String>, description: &str) -> (property: Property)
    ensures
        property@ == property_of(name, KindView::OneOf(texts(choices@)), description@),
{
    Property {
        name: name.to_string(),
        kind: PropertyKind::OneOf(choices),
        description: description.to_string(),
    }
}

} // verus!
