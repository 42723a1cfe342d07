//! The shape of a document: what every document carries, and the schema
//! that a type definition declares for the content of its instances.

use crate::keyed::distinct_keys;
use crate::value::{well_formed, Value, ValueView};
use vstd::prelude::*;

verus! {

/// The kinds of value that a schema field can ask for.
#[derive(Debug, Clone, Copy, PartialEq, Eq, Structural)]
pub enum FieldType {
    String,
    Number,
    Boolean,
    Object,
    Array,
    Ref,
    Any,
}

/// What a schema declares of one field. `properties` and `items` nest
/// further fields; `properties` keeps them in the order they were written.
#[derive(Debug)]
pub struct SchemaField {
    pub field_type: FieldType,
    pub required: Option<bool>,
    pub uri: Option<String>,
    pub pattern: Option<String>,
    pub enum_values: Option<Vec<Value>>,
    pub properties: Option<Vec<(String, SchemaField)>>,
    pub items: Option<Box<SchemaField>>,
    pub description: Option<String>,
}

/// The metadata that every document carries.
#[derive(Debug)]
pub struct SpecificationMetadata {
    pub id: String,
    pub version: String,
    pub publisher: String,
    pub title: Option<String>,
    pub description: Option<String>,
}

/// A document of any type. `type_reference` names the type; `schema` and
/// `includes` are present where the document is itself a type definition;
/// `content` holds whatever else the document carries, in written order.
#[derive(Debug)]
pub struct CanonSpecification {
    pub canon: String,
    pub type_reference: String,
    pub metadata: SpecificationMetadata,
    pub includes: Option<Vec<String>>,
    pub schema: Option<Vec<(String, SchemaField)>>,
    pub content: Vec<(String, Value)>,
}

/// Where generated artifacts go.
#[derive(Debug, Clone)]
pub struct OutputConfiguration {
    pub artifacts: Option<Vec<String>>,
    pub directory: Option<String>,
}

/// A source tree that a document draws on.
#[derive(Debug, Clone)]
pub struct SourceDefinition {
    pub path: String,
    pub source_type: String,
    pub included: Option<Vec<String>>,
    pub excluded: Option<Vec<String>>,
}

/// A schema field as a plain value.
pub struct SchemaFieldView {
    pub field_type: FieldType,
    pub required: Option<bool>,
    pub uri: Option<Seq<char>>,
    pub pattern: Option<Seq<char>>,
    pub enum_values: Option<Seq<ValueView>>,
    pub properties: Option<Seq<(Seq<char>, SchemaFieldView)>>,
    pub items: Option<Box<SchemaFieldView>>,
    pub description: Option<Seq<char>>,
}

/// The metadata of a document as a plain value.
pub struct MetadataView {
    pub id: Seq<char>,
    pub version: Seq<char>,
    pub publisher: Seq<char>,
    pub title: Option<Seq<char>>,
    pub description: Option<Seq<char>>,
}

/// A document as a plain value.
pub struct SpecificationView {
    pub canon: Seq<char>,
    pub type_reference: Seq<char>,
    pub metadata: MetadataView,
    pub includes: Option<Seq<Seq<char>>>,
    pub schema: Option<Seq<(Seq<char>, SchemaFieldView)>>,
    pub content: Seq<(Seq<char>, ValueView)>,
}

/// An output configuration as a plain value.
pub struct OutputConfigurationView {
    pub artifacts: Option<Seq<Seq<char>>>,
    pub directory: Option<Seq<char>>,
}

/// A source tree as a plain value.
pub struct SourceDefinitionView {
    pub path: Seq<char>,
    pub source_type: Seq<char>,
    pub included: Option<Seq<Seq<char>>>,
    pub excluded: Option<Seq<Seq<char>>>,
}

/// A field of any kind that asks for nothing.
pub open spec fn any_field() -> SchemaFieldView {
    SchemaFieldView {
        field_type: FieldType::Any,
        required: None,
        uri: None,
        pattern: None,
        enum_values: None,
        properties: None,
        items: None,
        description: None,
    }
}

/// The plain value that a schema field stands for.
pub open spec fn field_model(field: SchemaField) -> SchemaFieldView
    decreases field,
{
    SchemaFieldView {
        field_type: field.field_type,
        required: field.required,
        uri: field.uri.deep_view(),
        pattern: field.pattern.deep_view(),
        enum_values: field.enum_values.deep_view(),
        properties: match field.properties {
            Some(properties) => Some(
                Seq::new(
                    properties@.len(),
                    |i: int|
                        if 0 <= i < properties@.len() {
                            (properties@[i].0@, field_model(properties@[i].1))
                        } else {
                            (Seq::empty(), any_field())
                        },
                ),
            ),
            None => None,
        },
        items: match field.items {
            Some(items) => Some(Box::new(field_model(*items))),
            None => None,
        },
        description: field.description.deep_view(),
    }
}

impl View for SchemaField {
    type V = SchemaFieldView;

    open spec fn view(&self) -> SchemaFieldView {
        field_model(*self)
    }
}

impl DeepView for SchemaField {
    type V = SchemaFieldView;

    open spec fn deep_view(&self) -> SchemaFieldView {
        field_model(*self)
    }
}

impl View for SpecificationMetadata {
    type V = MetadataView;

    open spec fn view(&self) -> MetadataView {
        MetadataView {
            id: self.id@,
            version: self.version@,
            publisher: self.publisher@,
            title: self.title.deep_view(),
            description: self.description.deep_view(),
        }
    }
}

impl View for CanonSpecification {
    type V = SpecificationView;

    open spec fn view(&self) -> SpecificationView {
        SpecificationView {
            canon: self.canon@,
            type_reference: self.type_reference@,
            metadata: self.metadata@,
            includes: self.includes.deep_view(),
            schema: self.schema.deep_view(),
            content: self.content.deep_view(),
        }
    }
}

impl DeepView for CanonSpecification {
    type V = SpecificationView;

    open spec fn deep_view(&self) -> SpecificationView {
        self@
    }
}

impl View for OutputConfiguration {
    type V = OutputConfigurationView;

    open spec fn view(&self) -> OutputConfigurationView {
        OutputConfigurationView {
            artifacts: self.artifacts.deep_view(),
            directory: self.directory.deep_view(),
        }
    }
}

impl DeepView for OutputConfiguration {
    type V = OutputConfigurationView;

    open spec fn deep_view(&self) -> OutputConfigurationView {
        self@
    }
}

impl View for SourceDefinition {
    type V = SourceDefinitionView;

    open spec fn view(&self) -> SourceDefinitionView {
        SourceDefinitionView {
            path: self.path@,
            source_type: self.source_type@,
            included: self.included.deep_view(),
            excluded: self.excluded.deep_view(),
        }
    }
}

impl DeepView for SourceDefinition {
    type V = SourceDefinitionView;

    open spec fn deep_view(&self) -> SourceDefinitionView {
        self@
    }
}

/// A field stands for the names and plain values of its properties, and
/// for the plain value of what describes its elements.
pub proof fn lemma_field_view(field: SchemaField)
    ensures
        field@.properties == field.properties.deep_view(),
        field.items matches Some(items) ==> field@.items == Some(Box::new((*items)@)),
        field.items is None ==> field@.items is None,
{
    match field.properties {
        Some(properties) => {
            assert(field@.properties->Some_0 =~= properties.deep_view());
        },
        None => {},
    }
}

/// The copy of an optional text.
fn copy_text(text: &Option<String>) -> (r: Option<String>)
    ensures
        r.deep_view() == text.deep_view(),
{
    match text {
        Some(t) => Some(t.clone()),
        None => None,
    }
}

/// The copy of a list of texts.
fn copy_texts(texts: &Vec<String>) -> (r: Vec<String>)
    ensures
        r.deep_view() == texts.deep_view(),
{
    let mut copies: Vec<String> = Vec::new();
    let mut i: usize = 0;
    while i < texts.len()
        invariant
            i <= texts@.len(),
            copies@.len() == i,
            forall|k: int| 0 <= k < i ==> (#[trigger] copies@[k])@ == texts@[k]@,
        decreases texts@.len() - i,
    {
        copies.push(texts[i].clone());
        i += 1;
    }
    assert(copies.deep_view() =~= texts.deep_view());
    copies
}

/// The copy of a list of values.
fn copy_values(values: &Vec<Value>) -> (r: Vec<Value>)
    ensures
        r.deep_view() == values.deep_view(),
{
    let mut copies: Vec<Value> = Vec::new();
    let mut i: usize = 0;
    while i < values.len()
        invariant
            i <= values@.len(),
            copies@.len() == i,
            forall|k: int| 0 <= k < i ==> (#[trigger] copies@[k])@ == values@[k]@,
        decreases values@.len() - i,
    {
        copies.push(values[i].clone());
        i += 1;
    }
    assert(copies.deep_view() =~= values.deep_view());
    copies
}

/// The copy of the fields that a schema declares.
fn copy_fields(fields: &Vec<(String, SchemaField)>) -> (r: Vec<(String, SchemaField)>)
    ensures
        r.deep_view() == fields.deep_view(),
    decreases *fields,
{
    let mut copies: Vec<(String, SchemaField)> = Vec::new();
    let mut i: usize = 0;
    while i < fields.len()
        invariant
            i <= fields@.len(),
            copies@.len() == i,
            forall|k: int|
                0 <= k < i ==> (#[trigger] copies@[k]).0@ == fields@[k].0@ && copies@[k].1@
                    == fields@[k].1@,
        decreases fields@.len() - i,
    {
        proof {
            vstd::std_specs::vec::axiom_vec_index_decreases(*fields, i as int);
            assert(decreases_to!(fields@[i as int] => fields@[i as int].1));
        }
        copies.push((fields[i].0.clone(), fields[i].1.clone()));
        i += 1;
    }
    assert(copies.deep_view() =~= fields.deep_view());
    copies
}

impl Clone for SchemaField {
    fn clone(&self) -> (r: SchemaField)
        ensures
            r@ == self@,
        decreases *self,
    {
        let r = SchemaField {
            field_type: self.field_type,
            required: self.required,
            uri: copy_text(&self.uri),
            pattern: copy_text(&self.pattern),
            enum_values: match &self.enum_values {
                Some(values) => Some(copy_values(values)),
                None => None,
            },
            properties: match &self.properties {
                Some(properties) => Some(copy_fields(properties)),
                None => None,
            },
            items: match &self.items {
                Some(items) => Some(Box::new((&**items).clone())),
                None => None,
            },
            description: copy_text(&self.description),
        };
        proof {
            lemma_field_view(*self);
            lemma_field_view(r);
        }
        r
    }
}

impl Clone for SpecificationMetadata {
    fn clone(&self) -> (r: SpecificationMetadata)
        ensures
            r@ == self@,
    {
        SpecificationMetadata {
            id: self.id.clone(),
            version: self.version.clone(),
            publisher: self.publisher.clone(),
            title: copy_text(&self.title),
            description: copy_text(&self.description),
        }
    }
}

impl Clone for CanonSpecification {
    fn clone(&self) -> (r: CanonSpecification)
        ensures
            r@ == self@,
    {
        let mut content: Vec<(String, Value)> = Vec::new();
        let mut i: usize = 0;
        while i < self.content.len()
            invariant
                i <= self.content@.len(),
                content@.len() == i,
                forall|k: int|
                    0 <= k < i ==> (#[trigger] content@[k]).0@ == self.content@[k].0@
                        && content@[k].1@ == self.content@[k].1@,
            decreases self.content@.len() - i,
        {
            content.push((self.content[i].0.clone(), self.content[i].1.clone()));
            i += 1;
        }
        assert(content.deep_view() =~= self.content.deep_view());
        CanonSpecification {
            canon: self.canon.clone(),
            type_reference: self.type_reference.clone(),
            metadata: self.metadata.clone(),
            includes: match &self.includes {
                Some(includes) => Some(copy_texts(includes)),
                None => None,
            },
            schema: match &self.schema {
                Some(schema) => Some(copy_fields(schema)),
                None => None,
            },
            content,
        }
    }
}

/// Whether no two properties of `field`, or of a field nested in it, share
/// a name, and no mapping among its allowed values has two entries of one
/// name.
pub open spec fn well_formed_field(field: SchemaFieldView) -> bool
    decreases field,
{
    &&& field.enum_values matches Some(values) ==> forall|i: int|
        0 <= i < values.len() ==> well_formed(#[trigger] values[i])
    &&& field.properties matches Some(properties) ==> {
        &&& distinct_keys(properties)
        &&& forall|i: int|
            0 <= i < properties.len() ==> well_formed_field((#[trigger] properties[i]).1)
    }
    &&& field.items matches Some(items) ==> well_formed_field(*items)
}

impl SpecificationView {
    /// Whether no two entries of the content, no two fields of the
    /// schema and no two entries of a mapping in them share a name.
    pub open spec fn well_formed(self) -> bool {
        &&& distinct_keys(self.content)
        &&& forall|i: int| 0 <= i < self.content.len() ==> well_formed((#[trigger] self.content[i]).1)
        &&& self.schema matches Some(schema) ==> {
            &&& distinct_keys(schema)
            &&& forall|i: int| 0 <= i < schema.len() ==> well_formed_field((#[trigger] schema[i]).1)
        }
    }
}

/// The text that names a field type in a diagnostic.
pub open spec fn kind_name(t: FieldType) -> Seq<char> {
    match t {
        FieldType::String => "String"@,
        FieldType::Number => "Number"@,
        FieldType::Boolean => "Boolean"@,
        FieldType::Object => "Object"@,
        FieldType::Array => "Array"@,
        FieldType::Ref => "Ref"@,
        FieldType::Any => "Any"@,
    }
}

/// Whether a value is of the kind that a field type asks for. A reference
/// is written as a string; `Any` takes every value.
pub open spec fn type_matches(value: ValueView, t: FieldType) -> bool {
    match t {
        FieldType::String => value is String,
        FieldType::Number => value is Number,
        FieldType::Boolean => value is Bool,
        FieldType::Object => value is Mapping,
        FieldType::Array => value is Sequence,
        FieldType::Ref => value is String,
        FieldType::Any => true,
    }
}

impl FieldType {
    /// The text that names this field type in a diagnostic.
    pub fn name(&self) -> (out: &'static str)
        ensures
            out@ == kind_name(*self),
    {
        match self {
            FieldType::String => "String",
            FieldType::Number => "Number",
            FieldType::Boolean => "Boolean",
            FieldType::Object => "Object",
            FieldType::Array => "Array",
            FieldType::Ref => "Ref",
            FieldType::Any => "Any",
        }
    }

    /// Whether `value` is of the kind that this field type asks for.
    pub fn admits(&self, value: &Value) -> (r: bool)
        ensures
            r == type_matches(value@, *self),
    {
        match self {
            FieldType::String => matches!(value, Value::String(_)),
            FieldType::Number => matches!(value, Value::Number(_)),
            FieldType::Boolean => matches!(value, Value::Bool(_)),
            FieldType::Object => matches!(value, Value::Mapping(_)),
            FieldType::Array => matches!(value, Value::Sequence(_)),
            FieldType::Ref => matches!(value, Value::String(_)),
            FieldType::Any => true,
        }
    }
}

} // verus!
