//! Validation of a type definition: the schema that it declares is checked
//! field by field, and the types that it includes have to be references.

use crate::dependency::{invalid_uri_text, parse_uri, Dependency};
use crate::diagnostics::{lemma_and_assoc, lemma_and_none, Diagnostics, Issues};
use crate::specification::{
    lemma_field_view, CanonSpecification, FieldType, SchemaField, SchemaFieldView,
};
use crate::text::{framed, is_plain_name, plain_name};
use vstd::prelude::*;
use vstd::string::*;

verus! {

/// The warning for a field whose name holds anything but lower-case
/// letters, digits and underscores; it names the field by its place.
pub open spec fn field_name_text(place: Seq<char>) -> Seq<char> {
    "Field name '"@ + place + "' should be lowercase with underscores"@
}

/// The error for a reference field without `uri`.
pub open spec fn missing_uri_text(name: Seq<char>) -> Seq<char> {
    "Field '"@ + name + "' is type 'ref' but missing 'uri' property"@
}

/// The warning for a pattern on a field that is no string.
pub open spec fn pattern_misuse_text(name: Seq<char>) -> Seq<char> {
    "Field '"@ + name + "' has 'pattern' but is not type 'string'"@
}

/// The error for properties on a field that is no object.
pub open spec fn properties_misuse_text(name: Seq<char>) -> Seq<char> {
    "Field '"@ + name + "' has 'properties' but is not type 'object'"@
}

/// The error for items on a field that is no array.
pub open spec fn items_misuse_text(name: Seq<char>) -> Seq<char> {
    "Field '"@ + name + "' has 'items' but is not type 'array'"@
}

/// The warning for an included type without a version.
pub open spec fn unversioned_include_text(uri: Seq<char>) -> Seq<char> {
    "Include '"@ + uri + "' should specify a version"@
}

/// The error for an included type that is no reference.
pub open spec fn invalid_include_text(uri: Seq<char>) -> Seq<char> {
    "Invalid include '"@ + uri + "': "@ + ("Invalid URI format: "@ + invalid_uri_text(uri))
}

/// The place of a field nested in the properties of the field at
/// `parent`.
pub open spec fn nested_name(parent: Seq<char>, name: Seq<char>) -> Seq<char> {
    parent + "."@ + name
}

/// The place of what describes the elements of the field at `parent`.
pub open spec fn items_name(parent: Seq<char>) -> Seq<char> {
    parent + "[]"@
}

/// The name that a field is declared under, where it has one.
pub open spec fn name_view(name: Option<&str>) -> Option<Seq<char>> {
    match name {
        Some(n) => Some(n@),
        None => None,
    }
}

/// What the check of a field's name finds: a warning where the name that
/// the field is declared under holds anything but lower-case letters,
/// digits and underscores. What describes the elements of an array is
/// declared under no name, and nothing is found of it.
pub open spec fn name_issues(place: Seq<char>, name: Option<Seq<char>>) -> Issues {
    match name {
        Some(n) => Issues::when(!plain_name(n, '_'), Issues::warning(field_name_text(place))),
        None => Issues::none(),
    }
}

/// What the checks of one field find, its nested fields left aside. The
/// field stands at `place`, by which the findings name it, and is declared
/// under `name`. A warning for the name; an error for a reference without
/// `uri`; a warning for a pattern on a field that is no string; an error
/// for properties on a field that is no object; an error for items on a
/// field that is no array.
pub open spec fn own_issues(
    place: Seq<char>,
    name: Option<Seq<char>>,
    field: SchemaFieldView,
) -> Issues {
    name_issues(place, name).and(
        Issues::when(
            field.field_type == FieldType::Ref && field.uri is None,
            Issues::error(missing_uri_text(place)),
        ),
    ).and(
        Issues::when(
            field.pattern is Some && field.field_type != FieldType::String,
            Issues::warning(pattern_misuse_text(place)),
        ),
    ).and(
        Issues::when(
            field.properties is Some && field.field_type != FieldType::Object,
            Issues::error(properties_misuse_text(place)),
        ),
    ).and(
        Issues::when(
            field.items is Some && field.field_type != FieldType::Array,
            Issues::error(items_misuse_text(place)),
        ),
    )
}

/// Whether a field is put together as its kind allows: properties on an
/// object only, items on an array only, and a reference with its `uri`.
pub open spec fn well_typed(field: SchemaFieldView) -> bool {
    &&& field.properties is Some ==> field.field_type == FieldType::Object
    &&& field.items is Some ==> field.field_type == FieldType::Array
    &&& field.field_type == FieldType::Ref ==> field.uri is Some
}

/// Whether a field and every field nested in it meet the rules: each is
/// put together as its kind allows, a pattern stands on a string only, and
/// every property is declared under a name of lower-case letters, digits
/// and underscores.
pub open spec fn in_order(field: SchemaFieldView) -> bool
    decreases field,
{
    &&& well_typed(field)
    &&& field.pattern is Some ==> field.field_type == FieldType::String
    &&& field.properties matches Some(properties) ==> forall|i: int|
        0 <= i < properties.len() ==> plain_name((#[trigger] properties[i]).0, '_') && in_order(
            properties[i].1,
        )
    &&& field.items matches Some(items) ==> in_order(*items)
}

/// What the checks find of the field at `place`, declared under `name`,
/// and of the fields nested in it: its own findings, then those of its
/// properties in their order, then those of what describes its elements.
/// A property stands at the place of its parent, a `.` and its name, and
/// is declared under its name; what describes the elements stands at the
/// place of the array followed by `[]`, and is declared under no name.
pub open spec fn placed_field_issues(
    place: Seq<char>,
    name: Option<Seq<char>>,
    field: SchemaFieldView,
) -> Issues
    decreases field, 0nat,
{
    own_issues(place, name, field).and(
        match field.properties {
            Some(properties) => properties_issues(place, properties, properties.len()),
            None => Issues::none(),
        },
    ).and(
        match field.items {
            Some(items) => placed_field_issues(items_name(place), None, *items),
            None => Issues::none(),
        },
    )
}

/// What the checks find of the first `n` properties of the field at
/// `parent`.
pub open spec fn properties_issues(
    parent: Seq<char>,
    properties: Seq<(Seq<char>, SchemaFieldView)>,
    n: nat,
) -> Issues
    decreases properties, n,
{
    if n == 0 || n > properties.len() {
        Issues::none()
    } else {
        properties_issues(parent, properties, (n - 1) as nat).and(
            placed_field_issues(
                nested_name(parent, properties[n - 1].0),
                Some(properties[n - 1].0),
                properties[n - 1].1,
            ),
        )
    }
}

/// What the checks find of the field that a schema declares as `name`, and
/// of the fields nested in it.
pub open spec fn schema_field_issues(name: Seq<char>, field: SchemaFieldView) -> Issues {
    placed_field_issues(name, Some(name), field)
}

/// What the checks find of the first `n` fields that a schema declares.
pub open spec fn schema_issues(schema: Seq<(Seq<char>, SchemaFieldView)>, n: nat) -> Issues
    decreases n,
{
    if n == 0 || n > schema.len() {
        Issues::none()
    } else {
        schema_issues(schema, (n - 1) as nat).and(
            schema_field_issues(schema[n - 1].0, schema[n - 1].1),
        )
    }
}

/// What the check of one included type finds: an error where the text is
/// no reference, a warning where the reference names no version.
pub open spec fn include_issues(uri: Seq<char>) -> Issues {
    match parse_uri(uri) {
        Some(d) => Issues::when(d.version is None, Issues::warning(unversioned_include_text(uri))),
        None => Issues::error(invalid_include_text(uri)),
    }
}

/// What the checks find of the first `n` included types.
pub open spec fn includes_issues(includes: Seq<Seq<char>>, n: nat) -> Issues
    decreases n,
{
    if n == 0 || n > includes.len() {
        Issues::none()
    } else {
        includes_issues(includes, (n - 1) as nat).and(include_issues(includes[n - 1]))
    }
}

/// What the checks find of a type definition: its schema, field by field,
/// then the types that it includes.
pub open spec fn type_definition_issues(
    schema: Option<Seq<(Seq<char>, SchemaFieldView)>>,
    includes: Option<Seq<Seq<char>>>,
) -> Issues {
    (match schema {
        Some(fields) => schema_issues(fields, fields.len()),
        None => Issues::none(),
    }).and(
        match includes {
            Some(uris) => includes_issues(uris, uris.len()),
            None => Issues::none(),
        },
    )
}

/// Records what the checks of the field at `place`, declared under
/// `own_name`, find, its nested fields left aside.
pub fn check_own(place: &str, own_name: Option<&str>, field: &SchemaField, out: &mut Diagnostics)
    ensures
        final(out)@ == old(out)@.and(own_issues(place@, name_view(own_name), field@)),
{
    let ghost name = place@;
    proof {
        lemma_field_view(*field);
    }
    let ghost a = name_issues(place@, name_view(own_name));
    let ghost b = Issues::when(
        field.field_type == FieldType::Ref && field.uri is None,
        Issues::error(missing_uri_text(name)),
    );
    let ghost c = Issues::when(
        field.pattern is Some && field.field_type != FieldType::String,
        Issues::warning(pattern_misuse_text(name)),
    );
    let ghost d = Issues::when(
        field.properties is Some && field.field_type != FieldType::Object,
        Issues::error(properties_misuse_text(name)),
    );
    let ghost e = Issues::when(
        field.items is Some && field.field_type != FieldType::Array,
        Issues::error(items_misuse_text(name)),
    );
    proof {
        lemma_and_none(old(out)@);
    }
    if let Some(declared) = own_name {
        if !is_plain_name(declared, '_') {
            out.warning(
                framed("Field name '", place, "' should be lowercase with underscores"),
            );
        }
    }
    assert(out@ == old(out)@.and(a));
    proof {
        lemma_and_none(out@);
    }
    if matches!(field.field_type, FieldType::Ref) && field.uri.is_none() {
        out.error(framed("Field '", place, "' is type 'ref' but missing 'uri' property"));
    }
    proof {
        lemma_and_assoc(old(out)@, a, b);
        lemma_and_none(out@);
    }
    assert(out@ == old(out)@.and(a.and(b)));
    if field.pattern.is_some() && !matches!(field.field_type, FieldType::String) {
        out.warning(framed("Field '", place, "' has 'pattern' but is not type 'string'"));
    }
    proof {
        lemma_and_assoc(old(out)@, a.and(b), c);
        lemma_and_none(out@);
    }
    assert(out@ == old(out)@.and(a.and(b).and(c)));
    if field.properties.is_some() && !matches!(field.field_type, FieldType::Object) {
        out.error(
            framed("Field '", place, "' has 'properties' but is not type 'object'"),
        );
    }
    proof {
        lemma_and_assoc(old(out)@, a.and(b).and(c), d);
        lemma_and_none(out@);
    }
    assert(out@ == old(out)@.and(a.and(b).and(c).and(d)));
    if field.items.is_some() && !matches!(field.field_type, FieldType::Array) {
        out.error(framed("Field '", place, "' has 'items' but is not type 'array'"));
    }
    proof {
        lemma_and_assoc(old(out)@, a.and(b).and(c).and(d), e);
    }
}

/// Checks the field that a schema declares as `field_name` and the
/// fields nested in it, and records every finding.
pub fn validate_schema_field(field_name: &str, field: &SchemaField, out: &mut Diagnostics)
    ensures
        final(out)@ == old(out)@.and(schema_field_issues(field_name@, field@)),
{
    validate_placed_field(field_name, Some(field_name), field, out);
}

/// Checks the field at `place`, declared under `own_name`, and the fields
/// nested in it, and records every finding.
#[verifier::loop_isolation(false)]
pub fn validate_placed_field(
    place: &str,
    own_name: Option<&str>,
    field: &SchemaField,
    out: &mut Diagnostics,
)
    ensures
        final(out)@ == old(out)@.and(placed_field_issues(place@, name_view(own_name), field@)),
    decreases *field,
{
    proof {
        lemma_field_view(*field);
    }
    let ghost own = own_issues(place@, name_view(own_name), field@);
    let ghost nested = if field@.properties is Some {
        properties_issues(
            place@,
            field@.properties->Some_0,
            field@.properties->Some_0.len(),
        )
    } else {
        Issues::none()
    };
    let ghost of_items = if field@.items is Some {
        placed_field_issues(items_name(place@), None, *field@.items->Some_0)
    } else {
        Issues::none()
    };
    check_own(place, own_name, field, out);
    proof {
        lemma_and_none(out@);
    }
    if let Some(properties) = &field.properties {
        let ghost fields = properties.deep_view();
        let mut i: usize = 0;
        while i < properties.len()
            invariant
                i <= properties@.len(),
                out@ == old(out)@.and(own).and(properties_issues(place@, fields, i as nat)),
            decreases properties@.len() - i,
        {
            assert(fields[i as int] == (properties@[i as int].0@, properties@[i as int].1@));
            let mut name = String::from_str(place);
            name.append(".");
            name.append(properties[i].0.as_str());
            proof {
                assert(decreases_to!(*field => field.properties->Some_0));
                vstd::std_specs::vec::axiom_vec_index_decreases(*properties, i as int);
                assert(decreases_to!(properties@[i as int] => properties@[i as int].1));
            }
            validate_placed_field(
                name.as_str(),
                Some(properties[i].0.as_str()),
                &properties[i].1,
                out,
            );
            proof {
                lemma_and_assoc(
                    old(out)@.and(own),
                    properties_issues(place@, fields, i as nat),
                    placed_field_issues(name@, Some(fields[i as int].0), fields[i as int].1),
                );
            }
            i += 1;
        }
    }
    assert(out@ == old(out)@.and(own).and(nested));
    proof {
        lemma_and_none(out@);
    }
    if let Some(items) = &field.items {
        let mut name = String::from_str(place);
        name.append("[]");
        validate_placed_field(name.as_str(), None, items, out);
    }
    proof {
        lemma_and_assoc(old(out)@, own, nested);
        lemma_and_assoc(old(out)@, own.and(nested), of_items);
    }
}

/// Records what the check of one included type finds.
pub fn check_include(uri: &str, out: &mut Diagnostics)
    ensures
        final(out)@ == old(out)@.and(include_issues(uri@)),
{
    proof {
        lemma_and_none(old(out)@);
    }
    match Dependency::parse(uri) {
        Ok(dep) => {
            if dep.version.is_none() {
                out.warning(framed("Include '", uri, "' should specify a version"));
            }
        },
        Err(e) => {
            let mut m = String::from_str("Invalid include '");
            m.append(uri);
            m.append("': ");
            m.append(e.message().as_str());
            out.error(m);
        },
    }
}

/// Checks a type definition: the fields that its schema declares, in their
/// order, then the types that it includes.
#[verifier::loop_isolation(false)]
pub fn validate_type_definition(spec: &CanonSpecification, out: &mut Diagnostics)
    ensures
        final(out)@ == old(out)@.and(type_definition_issues(spec@.schema, spec@.includes)),
{
    let schema = &spec.schema;
    let includes = &spec.includes;
    let ghost of_schema = if spec@.schema is Some {
        schema_issues(spec@.schema->Some_0, spec@.schema->Some_0.len())
    } else {
        Issues::none()
    };
    let ghost of_includes = if spec@.includes is Some {
        includes_issues(spec@.includes->Some_0, spec@.includes->Some_0.len())
    } else {
        Issues::none()
    };
    proof {
        lemma_and_none(old(out)@);
    }
    if let Some(fields) = schema {
        let ghost views = fields.deep_view();
        let mut i: usize = 0;
        while i < fields.len()
            invariant
                i <= fields@.len(),
                out@ == old(out)@.and(schema_issues(views, i as nat)),
            decreases fields@.len() - i,
        {
            assert(views[i as int] == (fields@[i as int].0@, fields@[i as int].1@));
            validate_schema_field(fields[i].0.as_str(), &fields[i].1, out);
            proof {
                lemma_and_assoc(
                    old(out)@,
                    schema_issues(views, i as nat),
                    schema_field_issues(views[i as int].0, views[i as int].1),
                );
            }
            i += 1;
        }
    }
    assert(out@ == old(out)@.and(of_schema));
    proof {
        lemma_and_none(out@);
    }
    if let Some(uris) = includes {
        let ghost texts = uris.deep_view();
        let mut i: usize = 0;
        while i < uris.len()
            invariant
                i <= uris@.len(),
                out@ == old(out)@.and(of_schema).and(includes_issues(texts, i as nat)),
            decreases uris@.len() - i,
        {
            assert(texts[i as int] == uris@[i as int]@);
            check_include(uris[i].as_str(), out);
            proof {
                lemma_and_assoc(
                    old(out)@.and(of_schema),
                    includes_issues(texts, i as nat),
                    include_issues(texts[i as int]),
                );
            }
            i += 1;
        }
    }
    proof {
        lemma_and_assoc(old(out)@, of_schema, of_includes);
    }
}

/// A pattern on a field that is no string gives a warning, the last of
/// the field's own warnings, and the errors are those of the same field
/// without the pattern.
pub proof fn lemma_pattern_misuse_is_a_warning(
    place: Seq<char>,
    name: Option<Seq<char>>,
    field: SchemaFieldView,
)
    requires
        field.pattern is Some,
        field.field_type != FieldType::String,
    ensures
        own_issues(place, name, field).warnings.len() > 0,
        own_issues(place, name, field).warnings.last() == pattern_misuse_text(place),
        placed_field_issues(place, name, field).errors == placed_field_issues(
            place,
            name,
            SchemaFieldView { pattern: None, ..field },
        ).errors,
        own_issues(place, name, field).warnings == own_issues(
            place,
            name,
            SchemaFieldView { pattern: None, ..field },
        ).warnings.push(pattern_misuse_text(place)),
{
    let bare = SchemaFieldView { pattern: None, ..field };
    assert(own_issues(place, name, field).errors =~= own_issues(place, name, bare).errors);
    assert(own_issues(place, name, field).warnings =~= own_issues(
        place,
        name,
        bare,
    ).warnings.push(pattern_misuse_text(place)));
}

/// The checks of a field find an error exactly where the field is not
/// put together as its kind allows. A pattern that is out of place is
/// none of these, and neither is a name.
pub proof fn lemma_own_errors(place: Seq<char>, name: Option<Seq<char>>, field: SchemaFieldView)
    ensures
        own_issues(place, name, field).errors.len() == 0 <==> well_typed(field),
{
}

/// A field that meets the rules, with every field nested in it, and
/// whose own name is in order gives no finding, however deep it nests.
pub proof fn lemma_field_in_order_is_silent(
    place: Seq<char>,
    name: Option<Seq<char>>,
    field: SchemaFieldView,
)
    requires
        in_order(field),
        name matches Some(n) ==> plain_name(n, '_'),
    ensures
        placed_field_issues(place, name, field) == Issues::none(),
    decreases field, 0nat,
{
    lemma_and_none(Issues::none());
    assert(own_issues(place, name, field) == Issues::none());
    match field.properties {
        Some(properties) => {
            lemma_properties_in_order_are_silent(place, properties, properties.len());
        },
        None => {},
    }
    match field.items {
        Some(items) => {
            lemma_field_in_order_is_silent(items_name(place), None, *items);
        },
        None => {},
    }
}

/// Properties that meet the rules and are declared under names that are
/// in order give no finding.
pub proof fn lemma_properties_in_order_are_silent(
    parent: Seq<char>,
    properties: Seq<(Seq<char>, SchemaFieldView)>,
    n: nat,
)
    requires
        n <= properties.len(),
        forall|i: int|
            0 <= i < properties.len() ==> plain_name((#[trigger] properties[i]).0, '_') && in_order(
                properties[i].1,
            ),
    ensures
        properties_issues(parent, properties, n) == Issues::none(),
    decreases properties, n,
{
    lemma_and_none(Issues::none());
    if n > 0 {
        lemma_properties_in_order_are_silent(parent, properties, (n - 1) as nat);
        lemma_field_in_order_is_silent(
            nested_name(parent, properties[n - 1].0),
            Some(properties[n - 1].0),
            properties[n - 1].1,
        );
    }
}

} // verus!
