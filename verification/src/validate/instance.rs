//! Validation of content against a schema: the walk that checks each value
//! against the field that describes it.

use crate::dependency::{invalid_uri_text, parse_uri, Dependency};
use crate::diagnostics::{lemma_and_assoc, lemma_and_none, Diagnostics, Issues};
use crate::keyed::{find_key, has_key, key_index, lemma_key_index, lemma_key_index_push};
use crate::specification::{
    kind_name, lemma_field_view, type_matches, FieldType, SchemaField, SchemaFieldView,
};
use crate::text::{decimal, framed, push_decimal};
use crate::value::{
    debug_list, holds_value, lemma_mapping_view, lemma_sequence_view, push_debug_list, Value,
    ValueView,
};
use vstd::prelude::*;
use vstd::string::*;

verus! {

/// Whether `pattern` is a regular expression that the engine compiles.
pub uninterp spec fn regex_compiles(pattern: Seq<char>) -> bool;

/// Whether the regular expression `pattern` matches somewhere in `text`.
pub uninterp spec fn regex_is_match(pattern: Seq<char>, text: Seq<char>) -> bool;

/// The outcome of matching `text` against `pattern`: whether it matches,
/// or `None` where the pattern is not a regular expression.
pub open spec fn regex_match(pattern: Seq<char>, text: Seq<char>) -> Option<bool> {
    if regex_compiles(pattern) {
        Some(regex_is_match(pattern, text))
    } else {
        None
    }
}

/// `Regex::new` and `Regex::is_match` of the regex crate: the pattern is
/// compiled and, where that succeeds, searched for in the text. Whether
/// the pattern compiles depends on the pattern alone, and whether it
/// matches on the pattern and the text alone.
#[verifier::external_body]
fn match_pattern(pattern: &str, text: &str) -> (outcome: Option<bool>)
    ensures
        outcome is Some <==> regex_compiles(pattern@),
        outcome matches Some(found) ==> found == regex_is_match(pattern@, text@),
{
    match regex::Regex::new(pattern) {
        Ok(re) => Some(re.is_match(text)),
        Err(_) => None,
    }
}

/// The path of a field named `name` below `prefix`.
pub open spec fn field_path(prefix: Seq<char>, name: Seq<char>) -> Seq<char> {
    if prefix.len() == 0 {
        name
    } else {
        prefix + "."@ + name
    }
}

/// The path of the element at position `i` of the sequence at `path`.
pub open spec fn element_path(path: Seq<char>, i: nat) -> Seq<char> {
    path + "["@ + decimal(i) + "]"@
}

/// The error for a value that is not of the kind the field asks for.
pub open spec fn wrong_type_text(path: Seq<char>, t: FieldType) -> Seq<char> {
    "Field '"@ + path + "' has wrong type: expected "@ + kind_name(t)
}

/// The error for a text that does not match the pattern of its field.
pub open spec fn pattern_mismatch_text(
    path: Seq<char>,
    text: Seq<char>,
    pattern: Seq<char>,
) -> Seq<char> {
    "Field '"@ + path + "' value '"@ + text + "' doesn't match pattern '"@ + pattern + "'"@
}

/// The error for a reference that carries an operator.
pub open spec fn reference_operator_text(path: Seq<char>, uri: Seq<char>) -> Seq<char> {
    "Field '"@ + path + "' reference '"@ + uri + "' cannot use version operators in instances"@
}

/// The warning for a reference that names no version.
pub open spec fn reference_unpinned_text(path: Seq<char>, uri: Seq<char>) -> Seq<char> {
    "Field '"@ + path + "' reference '"@ + uri + "' should specify an exact version"@
}

/// The error for a text that is no reference.
pub open spec fn reference_invalid_text(path: Seq<char>, uri: Seq<char>) -> Seq<char> {
    "Field '"@ + path + "' has invalid reference '"@ + uri + "': "@ + ("Invalid URI format: "@
        + invalid_uri_text(uri))
}

/// The error for a value that is none of the allowed values, which it
/// lists.
pub open spec fn not_allowed_text(path: Seq<char>, allowed: Seq<ValueView>) -> Seq<char> {
    "Field '"@ + path + "' value must be one of: "@ + debug_list(allowed)
}

/// The error for a required field that is missing.
pub open spec fn required_text(path: Seq<char>) -> Seq<char> {
    "Required field '"@ + path + "' is missing"@
}

/// The warning for an entry that the schema does not declare.
pub open spec fn unknown_text(path: Seq<char>) -> Seq<char> {
    "Unknown field '"@ + path + "' not defined in schema"@
}

/// What a pattern check finds, given the outcome of the match: an error
/// where the text does not match; nothing where it matches or where the
/// pattern is not a regular expression.
pub open spec fn pattern_issues(
    path: Seq<char>,
    text: Seq<char>,
    pattern: Seq<char>,
    outcome: Option<bool>,
) -> Issues {
    Issues::when(outcome == Some(false), Issues::error(pattern_mismatch_text(path, text, pattern)))
}

/// What the check of a reference finds: an error where the text is no
/// reference; an error where it carries an operator; a warning where it
/// names no version.
pub open spec fn reference_issues(path: Seq<char>, uri: Seq<char>) -> Issues {
    match parse_uri(uri) {
        Some(d) => Issues::when(
            d.version_operator is Some,
            Issues::error(reference_operator_text(path, uri)),
        ).and(Issues::when(d.version is None, Issues::warning(reference_unpinned_text(path, uri)))),
        None => Issues::error(reference_invalid_text(path, uri)),
    }
}

/// What the check against a list of allowed values finds: an error where
/// there is a list and it holds no value equal to `value`.
pub open spec fn allowed_issues(
    path: Seq<char>,
    value: ValueView,
    allowed: Option<Seq<ValueView>>,
) -> Issues {
    match allowed {
        Some(values) => Issues::when(
            !holds_value(values, value),
            Issues::error(not_allowed_text(path, values)),
        ),
        None => Issues::none(),
    }
}

/// What the walk finds of `value` against `field`.
///
/// A value of the wrong kind gives one error and nothing else. Otherwise
/// the checks of the field's kind are made (pattern, reference, elements,
/// properties), then the check against the allowed values.
pub open spec fn value_issues(value: ValueView, field: SchemaFieldView, path: Seq<char>) -> Issues
    decreases field, 1nat,
{
    if !type_matches(value, field.field_type) {
        Issues::error(wrong_type_text(path, field.field_type))
    } else {
        kind_issues(value, field, path).and(allowed_issues(path, value, field.enum_values))
    }
}

/// What the checks of the field's kind find of a value of that kind: for a
/// string its pattern, for a reference its form, for a sequence its
/// elements where `items` describes them, for a mapping its entries where
/// `properties` describes them.
pub open spec fn kind_issues(value: ValueView, field: SchemaFieldView, path: Seq<char>) -> Issues
    decreases field, 0nat,
{
    match field.field_type {
        FieldType::String => match (value, field.pattern) {
            (ValueView::String(s), Some(p)) => pattern_issues(path, s, p, regex_match(p, s)),
            _ => Issues::none(),
        },
        FieldType::Ref => match value {
            ValueView::String(s) => reference_issues(path, s),
            _ => Issues::none(),
        },
        FieldType::Array => match (value, field.items) {
            (ValueView::Sequence(items), Some(schema)) => elements_issues(
                items,
                *schema,
                path,
                items.len(),
            ),
            _ => Issues::none(),
        },
        FieldType::Object => match (value, field.properties) {
            (ValueView::Mapping(entries), Some(properties)) => object_issues(
                entries,
                properties,
                path,
            ),
            _ => Issues::none(),
        },
        _ => Issues::none(),
    }
}

/// What the walk finds of the first `n` elements of a sequence, each
/// against `schema`, at the path of the sequence followed by its position
/// in square brackets.
pub open spec fn elements_issues(
    items: Seq<ValueView>,
    schema: SchemaFieldView,
    path: Seq<char>,
    n: nat,
) -> Issues
    decreases schema, n + 2,
{
    if n == 0 || n > items.len() {
        Issues::none()
    } else {
        elements_issues(items, schema, path, (n - 1) as nat).and(
            value_issues(items[n - 1], schema, element_path(path, (n - 1) as nat)),
        )
    }
}

/// What the walk finds of one declared field: an error where it is
/// required and `content` has no entry of its name, and then nothing
/// more; otherwise what it finds of the entry's value, where there is one.
pub open spec fn declared_issues(
    content: Seq<(Seq<char>, ValueView)>,
    schema: Seq<(Seq<char>, SchemaFieldView)>,
    prefix: Seq<char>,
    i: int,
) -> Issues
    decreases schema, 0nat,
{
    if 0 <= i < schema.len() {
        let name = schema[i].0;
        let path = field_path(prefix, name);
        if schema[i].1.required == Some(true) && !has_key(content, name) {
            Issues::error(required_text(path))
        } else if has_key(content, name) {
            value_issues(content[key_index(content, name)].1, schema[i].1, path)
        } else {
            Issues::none()
        }
    } else {
        Issues::none()
    }
}

/// What the walk finds of the first `n` declared fields, in their order.
pub open spec fn known_issues(
    content: Seq<(Seq<char>, ValueView)>,
    schema: Seq<(Seq<char>, SchemaFieldView)>,
    prefix: Seq<char>,
    n: nat,
) -> Issues
    decreases schema, n + 1,
{
    if n == 0 || n > schema.len() {
        Issues::none()
    } else {
        known_issues(content, schema, prefix, (n - 1) as nat).and(
            declared_issues(content, schema, prefix, n - 1),
        )
    }
}

/// A warning for each of the first `n` entries of `content` whose name the
/// schema does not declare, in their order.
pub open spec fn unknown_issues(
    content: Seq<(Seq<char>, ValueView)>,
    schema: Seq<(Seq<char>, SchemaFieldView)>,
    prefix: Seq<char>,
    n: nat,
) -> Issues
    decreases n,
{
    if n == 0 || n > content.len() {
        Issues::none()
    } else {
        unknown_issues(content, schema, prefix, (n - 1) as nat).and(
            Issues::when(
                !has_key(schema, content[n - 1].0),
                Issues::warning(unknown_text(field_path(prefix, content[n - 1].0))),
            ),
        )
    }
}

/// What the walk finds of `content` against the fields that `schema`
/// declares: first the declared fields in their order, then the entries
/// of `content` that the schema does not know.
pub open spec fn object_issues(
    content: Seq<(Seq<char>, ValueView)>,
    schema: Seq<(Seq<char>, SchemaFieldView)>,
    prefix: Seq<char>,
) -> Issues
    decreases schema, schema.len() + 2,
{
    known_issues(content, schema, prefix, schema.len()).and(
        unknown_issues(content, schema, prefix, content.len()),
    )
}

/// The text of the error for a value of the wrong kind.
fn wrong_type_message(path: &str, t: FieldType) -> (m: String)
    ensures
        m@ == wrong_type_text(path@, t),
{
    let mut m = String::from_str("Field '");
    m.append(path);
    m.append("' has wrong type: expected ");
    m.append(t.name());
    m
}

/// The text of the error for a text that does not match its pattern.
fn pattern_mismatch_message(path: &str, text: &str, pattern: &str) -> (m: String)
    ensures
        m@ == pattern_mismatch_text(path@, text@, pattern@),
{
    let mut m = String::from_str("Field '");
    m.append(path);
    m.append("' value '");
    m.append(text);
    m.append("' doesn't match pattern '");
    m.append(pattern);
    m.append("'");
    m
}

/// The text of a finding about the reference `uri` at `path`.
fn reference_message(path: &str, uri: &str, tail: &str) -> (m: String)
    ensures
        m@ == "Field '"@ + path@ + "' reference '"@ + uri@ + tail@,
{
    let mut m = String::from_str("Field '");
    m.append(path);
    m.append("' reference '");
    m.append(uri);
    m.append(tail);
    m
}

/// The path of a field named `name` below `prefix`.
pub fn join_path(prefix: &str, name: &str) -> (path: String)
    ensures
        path@ == field_path(prefix@, name@),
{
    if prefix.unicode_len() == 0 {
        String::from_str(name)
    } else {
        let mut path = String::from_str(prefix);
        path.append(".");
        path.append(name);
        path
    }
}

/// The path of the element at position `i` of the sequence at `path`.
pub fn index_path(path: &str, i: usize) -> (out: String)
    ensures
        out@ == element_path(path@, i as nat),
{
    let mut out = String::from_str(path);
    out.append("[");
    push_decimal(&mut out, i as u64);
    out.append("]");
    out
}

/// Records what a pattern check finds, given the outcome of the match.
pub fn check_pattern(
    path: &str,
    text: &str,
    pattern: &str,
    outcome: Option<bool>,
    out: &mut Diagnostics,
)
    ensures
        final(out)@ == old(out)@.and(pattern_issues(path@, text@, pattern@, outcome)),
{
    proof {
        lemma_and_none(old(out)@);
    }
    if let Some(false) = outcome {
        out.error(pattern_mismatch_message(path, text, pattern));
    }
}

/// Records what the check of a reference finds.
pub fn check_reference(path: &str, uri: &str, out: &mut Diagnostics)
    ensures
        final(out)@ == old(out)@.and(reference_issues(path@, uri@)),
{
    proof {
        lemma_and_none(old(out)@);
    }
    match Dependency::parse(uri) {
        Ok(dep) => {
            if dep.version_operator.is_some() {
                out.error(
                    reference_message(path, uri, "' cannot use version operators in instances"),
                );
            }
            let ghost first = Issues::when(
                dep@.version_operator is Some,
                Issues::error(reference_operator_text(path@, uri@)),
            );
            let ghost second = Issues::when(
                dep@.version is None,
                Issues::warning(reference_unpinned_text(path@, uri@)),
            );
            assert(out@ == old(out)@.and(first));
            if dep.version.is_none() {
                out.warning(reference_message(path, uri, "' should specify an exact version"));
            }
            proof {
                lemma_and_none(old(out)@.and(first));
                lemma_and_assoc(old(out)@, first, second);
            }
        },
        Err(e) => {
            let mut m = String::from_str("Field '");
            m.append(path);
            m.append("' has invalid reference '");
            m.append(uri);
            m.append("': ");
            m.append(e.message().as_str());
            out.error(m);
        },
    }
}

/// Records what the check against a list of allowed values finds.
pub fn check_allowed(path: &str, value: &Value, allowed: &Option<Vec<Value>>, out: &mut Diagnostics)
    ensures
        final(out)@ == old(out)@.and(allowed_issues(path@, value@, allowed.deep_view())),
{
    proof {
        lemma_and_none(old(out)@);
    }
    if let Some(values) = allowed {
        if !value.is_among(values) {
            let mut m = String::from_str("Field '");
            m.append(path);
            m.append("' value must be one of: ");
            push_debug_list(&mut m, values);
            out.error(m);
        }
    }
}

/// Walks `value` against `field` and records every finding, each with
/// `field_path` as the place it was made at.
#[verifier::loop_isolation(false)]
pub fn validate_value_against_field(
    value: &Value,
    field: &SchemaField,
    field_path: &str,
    out: &mut Diagnostics,
)
    ensures
        final(out)@ == old(out)@.and(value_issues(value@, field@, field_path@)),
    decreases *field, 1nat,
{
    if !field.field_type.admits(value) {
        out.error(wrong_type_message(field_path, field.field_type));
        return ;
    }
    proof {
        lemma_and_none(old(out)@);
        lemma_field_view(*field);
    }
    match field.field_type {
        FieldType::String => {
            if let (Value::String(s), Some(p)) = (value, &field.pattern) {
                let outcome = match_pattern(p.as_str(), s.as_str());
                check_pattern(field_path, s.as_str(), p.as_str(), outcome, out);
            }
        },
        FieldType::Ref => {
            if let Value::String(s) = value {
                check_reference(field_path, s.as_str(), out);
            }
        },
        FieldType::Array => {
            if let (Value::Sequence(items), Some(schema)) = (value, &field.items) {
                proof {
                    lemma_sequence_view(*items);
                }
                let ghost views = items.deep_view();
                let mut i: usize = 0;
                while i < items.len()
                    invariant
                        i <= items@.len(),
                        out@ == old(out)@.and(
                            elements_issues(views, (**schema)@, field_path@, i as nat),
                        ),
                    decreases items@.len() - i,
                {
                    let path = index_path(field_path, i);
                    assert(views[i as int] == items@[i as int]@);
                    validate_value_against_field(&items[i], schema, path.as_str(), out);
                    proof {
                        lemma_and_assoc(
                            old(out)@,
                            elements_issues(views, (**schema)@, field_path@, i as nat),
                            value_issues(views[i as int], (**schema)@, path@),
                        );
                    }
                    i += 1;
                }
            }
        },
        FieldType::Object => {
            if let (Value::Mapping(entries), Some(properties)) = (value, &field.properties) {
                proof {
                    lemma_mapping_view(*entries);
                }
                validate_instance_against_schema(entries, properties, out, field_path);
            }
        },
        _ => {},
    }
    assert(out@ == old(out)@.and(kind_issues(value@, field@, field_path@)));
    check_allowed(field_path, value, &field.enum_values, out);
    proof {
        lemma_and_assoc(
            old(out)@,
            kind_issues(value@, field@, field_path@),
            allowed_issues(field_path@, value@, field@.enum_values),
        );
    }
}

/// Walks `content` against the fields that `schema` declares and records
/// every finding: a required field that is missing, what the walk finds of
/// each value that is there, and a warning for each entry that the schema
/// does not know. `path_prefix` is the path of the mapping that holds the
/// entries; it is empty at the top of a document.
#[verifier::loop_isolation(false)]
pub fn validate_instance_against_schema(
    content: &Vec<(String, Value)>,
    schema: &Vec<(String, SchemaField)>,
    out: &mut Diagnostics,
    path_prefix: &str,
)
    ensures
        final(out)@ == old(out)@.and(
            object_issues(content.deep_view(), schema.deep_view(), path_prefix@),
        ),
    decreases *schema, 0nat,
{
    proof {
        lemma_and_none(old(out)@);
    }
    let ghost entries = content.deep_view();
    let ghost fields = schema.deep_view();
    let mut i: usize = 0;
    while i < schema.len()
        invariant
            i <= schema@.len(),
            out@ == old(out)@.and(known_issues(entries, fields, path_prefix@, i as nat)),
        decreases schema@.len() - i,
    {
        let ghost before = out@;
        let name = &schema[i].0;
        let def = &schema[i].1;
        let path = join_path(path_prefix, name.as_str());
        let at = find_key(content, name);
        proof {
            assert(fields[i as int] == (schema@[i as int].0@, schema@[i as int].1@));
            if at < content@.len() {
                assert(entries[at as int] == (content@[at as int].0@, content@[at as int].1@));
            }
        }
        if matches!(def.required, Some(true)) && at >= content.len() {
            out.error(framed("Required field '", path.as_str(), "' is missing"));
        } else if at < content.len() {
            validate_value_against_field(&content[at].1, def, path.as_str(), out);
        } else {
            proof {
                lemma_and_none(before);
            }
        }
        proof {
            assert(out@ == before.and(declared_issues(entries, fields, path_prefix@, i as int)));
            lemma_and_assoc(
                old(out)@,
                known_issues(entries, fields, path_prefix@, i as nat),
                declared_issues(entries, fields, path_prefix@, i as int),
            );
        }
        i += 1;
    }
    let ghost known = known_issues(entries, fields, path_prefix@, schema@.len());
    proof {
        lemma_and_none(old(out)@.and(known));
    }
    let mut j: usize = 0;
    while j < content.len()
        invariant
            j <= content@.len(),
            out@ == old(out)@.and(known).and(
                unknown_issues(entries, fields, path_prefix@, j as nat),
            ),
        decreases content@.len() - j,
    {
        let ghost before = out@;
        let name = &content[j].0;
        assert(entries[j as int] == (content@[j as int].0@, content@[j as int].1@));
        if find_key(schema, name) >= schema.len() {
            let path = join_path(path_prefix, name.as_str());
            out.warning(
                framed("Unknown field '", path.as_str(), "' not defined in schema"),
            );
        } else {
            proof {
                lemma_and_none(before);
            }
        }
        proof {
            lemma_and_assoc(
                old(out)@.and(known),
                unknown_issues(entries, fields, path_prefix@, j as nat),
                Issues::when(
                    !has_key(fields, entries[j as int].0),
                    Issues::warning(unknown_text(field_path(path_prefix@, entries[j as int].0))),
                ),
            );
        }
        j += 1;
    }
    proof {
        lemma_and_assoc(
            old(out)@,
            known,
            unknown_issues(entries, fields, path_prefix@, content@.len()),
        );
    }
}

/// The entries that the schema does not know give warnings and no error.
pub proof fn lemma_unknown_fields_give_no_error(
    content: Seq<(Seq<char>, ValueView)>,
    schema: Seq<(Seq<char>, SchemaFieldView)>,
    prefix: Seq<char>,
    n: nat,
)
    ensures
        unknown_issues(content, schema, prefix, n).errors.len() == 0,
    decreases n,
{
    if !(n == 0 || n > content.len()) {
        lemma_unknown_fields_give_no_error(content, schema, prefix, (n - 1) as nat);
    }
}

/// What the walk finds of the declared fields does not change where
/// `content` gets one more entry under a name that the schema does not
/// declare.
pub proof fn lemma_known_issues_ignore_unknown(
    content: Seq<(Seq<char>, ValueView)>,
    schema: Seq<(Seq<char>, SchemaFieldView)>,
    prefix: Seq<char>,
    entry: (Seq<char>, ValueView),
    n: nat,
)
    requires
        !has_key(schema, entry.0),
    ensures
        known_issues(content.push(entry), schema, prefix, n) == known_issues(
            content,
            schema,
            prefix,
            n,
        ),
    decreases n,
{
    if !(n == 0 || n > schema.len()) {
        lemma_known_issues_ignore_unknown(content, schema, prefix, entry, (n - 1) as nat);
        let name = schema[n - 1].0;
        lemma_key_index(schema, entry.0);
        assert(name != entry.0);
        lemma_key_index_push(content, entry, name);
        lemma_key_index(content, name);
        if has_key(content, name) {
            assert(content.push(entry)[key_index(content, name)] == content[key_index(
                content,
                name,
            )]);
        }
        assert(declared_issues(content.push(entry), schema, prefix, n - 1) == declared_issues(
            content,
            schema,
            prefix,
            n - 1,
        ));
    }
}

/// The warnings for unknown entries among the first `n` do not change
/// where `content` gets one more entry after them.
pub proof fn lemma_unknown_issues_prefix(
    content: Seq<(Seq<char>, ValueView)>,
    schema: Seq<(Seq<char>, SchemaFieldView)>,
    prefix: Seq<char>,
    entry: (Seq<char>, ValueView),
    n: nat,
)
    requires
        n <= content.len(),
    ensures
        unknown_issues(content.push(entry), schema, prefix, n) == unknown_issues(
            content,
            schema,
            prefix,
            n,
        ),
    decreases n,
{
    if n > 0 {
        lemma_unknown_issues_prefix(content, schema, prefix, entry, (n - 1) as nat);
        assert(content.push(entry)[n - 1] == content[n - 1]);
    }
}

/// An entry under a name that the schema does not declare adds one
/// warning to what the walk finds, and nothing else: no error, whatever
/// the value is.
pub proof fn lemma_unknown_field_is_a_warning(
    content: Seq<(Seq<char>, ValueView)>,
    schema: Seq<(Seq<char>, SchemaFieldView)>,
    prefix: Seq<char>,
    entry: (Seq<char>, ValueView),
)
    requires
        !has_key(schema, entry.0),
    ensures
        object_issues(content.push(entry), schema, prefix) == object_issues(
            content,
            schema,
            prefix,
        ).and(Issues::warning(unknown_text(field_path(prefix, entry.0)))),
        object_issues(content.push(entry), schema, prefix).errors == object_issues(
            content,
            schema,
            prefix,
        ).errors,
{
    let longer = content.push(entry);
    let warning = Issues::warning(unknown_text(field_path(prefix, entry.0)));
    lemma_known_issues_ignore_unknown(content, schema, prefix, entry, schema.len());
    lemma_unknown_issues_prefix(content, schema, prefix, entry, content.len());
    assert(longer[longer.len() - 1] == entry);
    assert(unknown_issues(longer, schema, prefix, longer.len()) == unknown_issues(
        content,
        schema,
        prefix,
        content.len(),
    ).and(warning));
    lemma_and_assoc(
        known_issues(content, schema, prefix, schema.len()),
        unknown_issues(content, schema, prefix, content.len()),
        warning,
    );
    assert(object_issues(content, schema, prefix).errors + Seq::<Seq<char>>::empty()
        =~= object_issues(content, schema, prefix).errors);
}

/// A value of the wrong kind gives exactly one error, at the path of the
/// field, and no warning, whatever else the field asks for.
pub proof fn lemma_wrong_type_is_one_error(
    value: ValueView,
    field: SchemaFieldView,
    path: Seq<char>,
)
    requires
        !type_matches(value, field.field_type),
    ensures
        value_issues(value, field, path) == Issues::error(wrong_type_text(path, field.field_type)),
{
}

/// A required field without an entry gives exactly one error, and the
/// field's own checks are not made.
pub proof fn lemma_required_field_missing(
    content: Seq<(Seq<char>, ValueView)>,
    schema: Seq<(Seq<char>, SchemaFieldView)>,
    prefix: Seq<char>,
    i: int,
)
    requires
        0 <= i < schema.len(),
        schema[i].1.required == Some(true),
        !has_key(content, schema[i].0),
    ensures
        declared_issues(content, schema, prefix, i) == Issues::error(
            required_text(field_path(prefix, schema[i].0)),
        ),
{
}

/// A value of the right kind that is none of the allowed values gives an
/// error that names them, after whatever the checks of its kind find.
pub proof fn lemma_value_not_allowed(value: ValueView, field: SchemaFieldView, path: Seq<char>)
    requires
        type_matches(value, field.field_type),
        field.enum_values matches Some(values) && !holds_value(values, value),
    ensures
        value_issues(value, field, path) == kind_issues(value, field, path).and(
            Issues::error(not_allowed_text(path, field.enum_values->Some_0)),
        ),
        value_issues(value, field, path).errors.len() > 0,
        value_issues(value, field, path).errors.last() == not_allowed_text(
            path,
            field.enum_values->Some_0,
        ),
{
}

} // verus!
