//! Validation of a whole document: what every document has to satisfy,
//! then its schema where it is a type definition, or its content against
//! the schema of its type where it is an instance.

use crate::dependency::{invalid_uri_text, parse_uri, Dependency};
use crate::diagnostics::{lemma_and_assoc, lemma_and_none, Diagnostics, Issues};
use crate::specification::{CanonSpecification, MetadataView, SpecificationView};
use crate::text::{
    after_first, before_first, chars_of, count_char, digits_or, find_char, framed, is_digits_or,
    is_plain_name, is_u32_text, lemma_first_index, lemma_first_index_occurs, occurrences,
    parses_as_u32, plain_name, same_text, sub_chars,
};
use crate::validate::instance::{object_issues, validate_instance_against_schema};
use crate::validate::schema::{type_definition_issues, validate_type_definition};
use vstd::prelude::*;
use vstd::string::*;

verus! {

/// Whether `version` is three unsigned 32-bit numbers with a `.` between
/// them: major, minor and patch.
pub open spec fn is_semver(version: Seq<char>) -> bool {
    match after_first(version, '.') {
        Some(rest) => match after_first(rest, '.') {
            Some(patch) => is_u32_text(before_first(version, '.')) && is_u32_text(
                before_first(rest, '.'),
            ) && is_u32_text(patch),
            None => false,
        },
        None => false,
    }
}

/// Whether `id` may be the id of a document: one or more lower-case
/// letters, digits and `-`.
pub open spec fn is_id(id: Seq<char>) -> bool {
    id.len() > 0 && plain_name(id, '-')
}

/// Whether `publisher` looks like a domain: it holds a `.`, or it is
/// `localhost` or `example`.
pub open spec fn is_publisher(publisher: Seq<char>) -> bool {
    occurrences(publisher, '.') > 0 || publisher == "localhost"@ || publisher == "example"@
}

/// The reference of the type of type definitions.
pub open spec fn type_definition_reference() -> Seq<char> {
    "canon-protocol.org/type@1.0.0"@
}

/// The error for a protocol version that holds anything but digits and
/// `.`.
pub open spec fn not_numeric_text(canon: Seq<char>) -> Seq<char> {
    "Invalid protocol version '"@ + canon + "': must be numeric (e.g., '1.0')"@
}

/// The error for a protocol version that is not two parts with a `.`
/// between them.
pub open spec fn not_major_minor_text(canon: Seq<char>) -> Seq<char> {
    "Invalid protocol version '"@ + canon + "': must be MAJOR.MINOR format"@
}

/// The warning for a type reference without a version.
pub open spec fn unversioned_type_text(reference: Seq<char>) -> Seq<char> {
    "Type reference '"@ + reference + "' should include a version"@
}

/// The error for a type reference that carries an operator.
pub open spec fn type_operator_text(reference: Seq<char>) -> Seq<char> {
    "Type reference '"@ + reference + "' cannot use version operators (^ or ~) in instances"@
}

/// The error for a type reference that is no reference.
pub open spec fn invalid_type_text(reference: Seq<char>) -> Seq<char> {
    "Invalid type reference '"@ + reference + "': "@ + ("Invalid URI format: "@ + invalid_uri_text(
        reference,
    ))
}

/// The error for an id that is empty or holds anything but lower-case
/// letters, digits and `-`.
pub open spec fn invalid_id_text(id: Seq<char>) -> Seq<char> {
    "Invalid metadata.id '"@ + id + "': must be lowercase alphanumeric with hyphens only"@
}

/// The error for a version that is no semantic version.
pub open spec fn invalid_version_text(version: Seq<char>) -> Seq<char> {
    "Invalid metadata.version '"@ + version + "': must be semantic version (MAJOR.MINOR.PATCH)"@
}

/// The warning for a publisher that does not look like a domain.
pub open spec fn publisher_text(publisher: Seq<char>) -> Seq<char> {
    "Publisher '"@ + publisher + "' should be a valid domain or subdomain"@
}

/// The warning for a type definition that could not be had.
pub open spec fn type_unavailable_text(reference: Seq<char>) -> Seq<char> {
    "Could not load type definition '"@ + reference + "' for validation"@
}

/// What the check of the protocol version finds: an error where it holds
/// anything but digits and `.`, and an error where it does not hold
/// exactly one `.`.
pub open spec fn protocol_version_issues(canon: Seq<char>) -> Issues {
    Issues::when(!digits_or(canon, '.'), Issues::error(not_numeric_text(canon))).and(
        Issues::when(occurrences(canon, '.') != 1, Issues::error(not_major_minor_text(canon))),
    )
}

/// What the check of a document's type reference finds: an error where it
/// is no reference; a warning where it names no version; an error where
/// it carries an operator.
pub open spec fn type_reference_issues(reference: Seq<char>) -> Issues {
    match parse_uri(reference) {
        Some(d) => Issues::when(
            d.version is None,
            Issues::warning(unversioned_type_text(reference)),
        ).and(
            Issues::when(d.version_operator is Some, Issues::error(type_operator_text(reference))),
        ),
        None => Issues::error(invalid_type_text(reference)),
    }
}

/// What the check of the metadata finds: an error for an id that is
/// empty or holds anything but lower-case letters, digits and `-`; an
/// error for a version that is no semantic version; a warning for a
/// publisher that does not look like a domain.
pub open spec fn metadata_issues(metadata: MetadataView) -> Issues {
    Issues::when(!is_id(metadata.id), Issues::error(invalid_id_text(metadata.id))).and(
        Issues::when(
            !is_semver(metadata.version),
            Issues::error(invalid_version_text(metadata.version)),
        ),
    ).and(
        Issues::when(
            !is_publisher(metadata.publisher),
            Issues::warning(publisher_text(metadata.publisher)),
        ),
    )
}

/// What the validation of an instance against its type finds, given the
/// type definition as far as it could be had. Nothing where the type
/// reference is no reference; a warning where the definition could not
/// be had; otherwise what the walk finds of the content against the
/// definition's schema, where it declares one.
pub open spec fn against_type_issues(
    spec: SpecificationView,
    type_definition: Option<SpecificationView>,
) -> Issues {
    if parse_uri(spec.type_reference) is None {
        Issues::none()
    } else {
        match type_definition {
            None => Issues::warning(type_unavailable_text(spec.type_reference)),
            Some(definition) => match definition.schema {
                Some(schema) => object_issues(spec.content, schema, Seq::empty()),
                None => Issues::none(),
            },
        }
    }
}

/// What the validation of a document finds: protocol version, type
/// reference and metadata; then the schema and the includes where the
/// document is a type definition, and the content against the type's
/// schema where it is an instance.
pub open spec fn document_issues(
    spec: SpecificationView,
    type_definition: Option<SpecificationView>,
) -> Issues {
    protocol_version_issues(spec.canon).and(type_reference_issues(spec.type_reference)).and(
        metadata_issues(spec.metadata),
    ).and(
        if spec.type_reference == type_definition_reference() {
            type_definition_issues(spec.schema, spec.includes)
        } else {
            against_type_issues(spec, type_definition)
        },
    )
}

/// Whether `version` is a semantic version.
pub fn is_valid_semver(version: &str) -> (r: bool)
    ensures
        r == is_semver(version@),
{
    let chars = chars_of(version);
    let dot = find_char(&chars, '.');
    proof {
        lemma_first_index(chars@, '.');
    }
    if dot >= chars.len() {
        return false;
    }
    let major = sub_chars(&chars, 0, dot);
    let rest = sub_chars(&chars, dot + 1, chars.len());
    let dot2 = find_char(&rest, '.');
    proof {
        lemma_first_index(rest@, '.');
    }
    if dot2 >= rest.len() {
        return false;
    }
    let minor = sub_chars(&rest, 0, dot2);
    let patch = sub_chars(&rest, dot2 + 1, rest.len());
    parses_as_u32(&major) && parses_as_u32(&minor) && parses_as_u32(&patch)
}

/// Whether `id` may be the id of a document.
pub fn is_valid_id(id: &str) -> (r: bool)
    ensures
        r == is_id(id@),
{
    id.unicode_len() > 0 && is_plain_name(id, '-')
}

/// Whether `publisher` looks like a domain.
pub fn is_valid_publisher(publisher: &str) -> (r: bool)
    ensures
        r == is_publisher(publisher@),
{
    let chars = chars_of(publisher);
    let dot = find_char(&chars, '.');
    proof {
        lemma_first_index_occurs(chars@, '.');
    }
    dot < chars.len() || same_text(publisher, "localhost") || same_text(publisher, "example")
}

/// Checks the protocol version of a document.
pub fn validate_protocol_version(spec: &CanonSpecification, out: &mut Diagnostics)
    ensures
        final(out)@ == old(out)@.and(protocol_version_issues(spec.canon@)),
{
    let canon = spec.canon.as_str();
    let ghost first = Issues::when(
        !digits_or(canon@, '.'),
        Issues::error(not_numeric_text(canon@)),
    );
    let ghost second = Issues::when(
        occurrences(canon@, '.') != 1,
        Issues::error(not_major_minor_text(canon@)),
    );
    proof {
        lemma_and_none(old(out)@);
    }
    if !is_digits_or(canon, '.') {
        out.error(framed("Invalid protocol version '", canon, "': must be numeric (e.g., '1.0')"));
    }
    assert(out@ == old(out)@.and(first));
    proof {
        lemma_and_none(out@);
    }
    let chars = chars_of(canon);
    if count_char(&chars, '.') != 1 {
        out.error(framed("Invalid protocol version '", canon, "': must be MAJOR.MINOR format"));
    }
    proof {
        lemma_and_assoc(old(out)@, first, second);
    }
}

/// Checks the type reference of a document.
pub fn validate_type_reference(spec: &CanonSpecification, out: &mut Diagnostics)
    ensures
        final(out)@ == old(out)@.and(type_reference_issues(spec.type_reference@)),
{
    let reference = spec.type_reference.as_str();
    proof {
        lemma_and_none(old(out)@);
    }
    match Dependency::parse(reference) {
        Ok(dep) => {
            let ghost first = Issues::when(
                dep@.version is None,
                Issues::warning(unversioned_type_text(reference@)),
            );
            let ghost second = Issues::when(
                dep@.version_operator is Some,
                Issues::error(type_operator_text(reference@)),
            );
            if dep.version.is_none() {
                out.warning(framed("Type reference '", reference, "' should include a version"));
            }
            assert(out@ == old(out)@.and(first));
            proof {
                lemma_and_none(out@);
            }
            if dep.version_operator.is_some() {
                out.error(
                    framed(
                        "Type reference '",
                        reference,
                        "' cannot use version operators (^ or ~) in instances",
                    ),
                );
            }
            proof {
                lemma_and_assoc(old(out)@, first, second);
            }
        },
        Err(e) => {
            let mut m = String::from_str("Invalid type reference '");
            m.append(reference);
            m.append("': ");
            m.append(e.message().as_str());
            out.error(m);
        },
    }
}

/// Checks the metadata of a document.
pub fn validate_metadata(spec: &CanonSpecification, out: &mut Diagnostics)
    ensures
        final(out)@ == old(out)@.and(metadata_issues(spec.metadata@)),
{
    let id = spec.metadata.id.as_str();
    let version = spec.metadata.version.as_str();
    let publisher = spec.metadata.publisher.as_str();
    let ghost first = Issues::when(!is_id(id@), Issues::error(invalid_id_text(id@)));
    let ghost second = Issues::when(
        !is_semver(version@),
        Issues::error(invalid_version_text(version@)),
    );
    let ghost third = Issues::when(
        !is_publisher(publisher@),
        Issues::warning(publisher_text(publisher@)),
    );
    proof {
        lemma_and_none(old(out)@);
    }
    if !is_valid_id(id) {
        out.error(
            framed(
                "Invalid metadata.id '",
                id,
                "': must be lowercase alphanumeric with hyphens only",
            ),
        );
    }
    assert(out@ == old(out)@.and(first));
    proof {
        lemma_and_none(out@);
    }
    if !is_valid_semver(version) {
        out.error(
            framed(
                "Invalid metadata.version '",
                version,
                "': must be semantic version (MAJOR.MINOR.PATCH)",
            ),
        );
    }
    proof {
        lemma_and_assoc(old(out)@, first, second);
        lemma_and_none(out@);
    }
    assert(out@ == old(out)@.and(first.and(second)));
    if !is_valid_publisher(publisher) {
        out.warning(framed("Publisher '", publisher, "' should be a valid domain or subdomain"));
    }
    proof {
        lemma_and_assoc(old(out)@, first.and(second), third);
    }
}

/// Validates an instance against its type, given the type definition as
/// far as it could be had.
pub fn validate_against_type(
    spec: &CanonSpecification,
    type_definition: &Option<CanonSpecification>,
    out: &mut Diagnostics,
)
    ensures
        final(out)@ == old(out)@.and(against_type_issues(spec@, type_definition.deep_view())),
{
    proof {
        lemma_and_none(old(out)@);
    }
    if Dependency::parse(spec.type_reference.as_str()).is_err() {
        return ;
    }
    match type_definition {
        None => {
            out.warning(
                framed(
                    "Could not load type definition '",
                    spec.type_reference.as_str(),
                    "' for validation",
                ),
            );
        },
        Some(definition) => {
            if let Some(schema) = &definition.schema {
                let prefix = "";
                proof {
                    reveal_strlit("");
                    assert(prefix@ =~= Seq::<char>::empty());
                }
                validate_instance_against_schema(&spec.content, schema, out, prefix);
            }
        },
    }
}

/// The type that a document is an instance of, where its definition is
/// needed to validate the document: none for a type definition, and none
/// where the type reference is no reference.
pub fn type_to_load(spec: &CanonSpecification) -> (needed: Option<Dependency>)
    ensures
        needed is Some <==> spec.type_reference@ != type_definition_reference() && parse_uri(
            spec.type_reference@,
        ) is Some,
        needed matches Some(dep) ==> Some(dep@) == parse_uri(spec.type_reference@),
{
    if same_text(spec.type_reference.as_str(), "canon-protocol.org/type@1.0.0") {
        None
    } else {
        match Dependency::parse(spec.type_reference.as_str()) {
            Ok(dep) => Some(dep),
            Err(_) => None,
        }
    }
}

/// Validates a document and returns every finding. `type_definition` is
/// the definition of the document's type as far as it could be had; it
/// is looked at for an instance only.
pub fn validate_specification(
    spec: &CanonSpecification,
    type_definition: &Option<CanonSpecification>,
) -> (out: Diagnostics)
    ensures
        out@ == document_issues(spec@, type_definition.deep_view()),
{
    let mut out = Diagnostics::new();
    let ghost a = protocol_version_issues(spec.canon@);
    let ghost b = type_reference_issues(spec.type_reference@);
    let ghost c = metadata_issues(spec.metadata@);
    validate_protocol_version(spec, &mut out);
    validate_type_reference(spec, &mut out);
    validate_metadata(spec, &mut out);
    proof {
        lemma_and_none(a);
    }
    assert(out@ == a.and(b).and(c));
    if same_text(spec.type_reference.as_str(), "canon-protocol.org/type@1.0.0") {
        validate_type_definition(spec, &mut out);
    } else {
        validate_against_type(spec, type_definition, &mut out);
    }
    out
}

} // verus!
