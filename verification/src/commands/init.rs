//! Starting a project: the values a new project begins with, what may be
//! entered for them, and the first document.

use crate::error::CanonError;
use crate::specification::{
    CanonSpecification, MetadataView, SpecificationMetadata, SpecificationView,
};
use crate::text::{
    chars_of, ends_with, find_char, has_suffix, has_text, holds_text, is_plain_name,
    lemma_first_index_occurs, occurrences, plain_name, same_text,
};
use crate::value::{lemma_sequence_view, well_formed, Value, ValueView};
use vstd::prelude::*;
use vstd::string::*;

verus! {

/// The upper-case form of a character, which may be several characters.
pub uninterp spec fn uppercase(c: char) -> Seq<char>;

/// `char::to_uppercase` of the standard library, collected into a string:
/// the upper-case form of the character, which depends on the character
/// alone.
#[verifier::external_body]
fn to_uppercase(c: char) -> (out: String)
    ensures
        out@ == uppercase(c),
{
    c.to_uppercase().collect()
}

/// The lower-case form of a text.
pub uninterp spec fn lowercase(s: Seq<char>) -> Seq<char>;

/// `str::to_lowercase` of the standard library: the lower-case form of the
/// text, which depends on the text alone.
#[verifier::external_body]
fn to_lowercase(s: &str) -> (out: String)
    ensures
        out@ == lowercase(s@),
{
    s.to_lowercase()
}

/// The title of a text read from `s` on: each `-` becomes a space, and
/// the character at the start of a word, which is where `at_start` holds
/// or a `-` came before, is put in upper case.
pub open spec fn title_from(s: Seq<char>, at_start: bool) -> Seq<char>
    decreases s.len(),
{
    if s.len() == 0 {
        Seq::empty()
    } else if s[0] == '-' {
        seq![' '] + title_from(s.drop_first(), true)
    } else if at_start {
        uppercase(s[0]) + title_from(s.drop_first(), false)
    } else {
        seq![s[0]] + title_from(s.drop_first(), false)
    }
}

/// The title that goes with an id: its words, which `-` parts, each with
/// its first character in upper case, and a space between two of them.
pub open spec fn title_of(id: Seq<char>) -> Seq<char> {
    title_from(id, true)
}

/// `s` with a `-` in place of every space and every underscore.
pub open spec fn dashed(s: Seq<char>) -> Seq<char> {
    Seq::new(
        s.len(),
        |i: int|
            if s[i] == ' ' || s[i] == '_' {
                '-'
            } else {
                s[i]
            },
    )
}

/// The name that a project id is made from: that of the directory, or
/// `my-project` where the directory has none.
pub open spec fn name_or_default(directory_name: Option<&str>) -> Seq<char> {
    match directory_name {
        Some(name) => name@,
        None => "my-project"@,
    }
}

/// The id of a project whose directory is named so: in lower case, with
/// `-` for spaces and underscores.
pub open spec fn default_project_id(directory_name: Option<&str>) -> Seq<char> {
    dashed(lowercase(name_or_default(directory_name)))
}

/// Whether `input` may be a publisher: it holds a `.`, or it is
/// `localhost`.
pub open spec fn publisher_input(input: Seq<char>) -> bool {
    occurrences(input, '.') > 0 || input == "localhost"@
}

/// What is to be written as the ignore file, given what it holds now:
/// nothing where it names the store already; otherwise what it holds,
/// ended by a line break, and a line that names the store.
pub open spec fn ignore_file_text(existing: Option<&str>) -> Option<Seq<char>> {
    match existing {
        None => Some(".canon/\n"@),
        Some(content) => if holds_text(content@, ".canon/"@) {
            None
        } else if ends_with(content@, "\n"@) {
            Some(content@ + ".canon/"@ + "\n"@)
        } else {
            Some(content@ + "\n"@ + ".canon/"@ + "\n"@)
        },
    }
}

/// The first document of a project: an instance of the project type that
/// depends on the type of type definitions and on nothing else.
pub open spec fn project_spec(
    id: Seq<char>,
    version: Seq<char>,
    publisher: Seq<char>,
    title: Seq<char>,
    description: Seq<char>,
) -> SpecificationView {
    SpecificationView {
        canon: "1.0"@,
        type_reference: "canon-protocol.org/project@1.0.0"@,
        metadata: MetadataView {
            id,
            version,
            publisher,
            title: Some(title),
            description: Some(description),
        },
        includes: None,
        schema: None,
        content: seq![
            (
                "dependencies"@,
                ValueView::Sequence(seq![ValueView::String("canon-protocol.org/type@1.0.0"@)]),
            ),
        ],
    }
}

/// The title that goes with an id.
pub fn format_title(id: &str) -> (title: String)
    ensures
        title@ == title_of(id@),
{
    let chars = chars_of(id);
    let mut title = String::new();
    let mut at_start = true;
    let mut i: usize = 0;
    assert(chars@.skip(0) =~= chars@);
    assert(Seq::<char>::empty() + title_of(id@) =~= title_of(id@));
    while i < chars.len()
        invariant
            i <= chars@.len(),
            chars@ == id@,
            title@ + title_from(chars@.skip(i as int), at_start) == title_of(id@),
        decreases chars@.len() - i,
    {
        let c = chars[i];
        let ghost rest = chars@.skip(i as int);
        let ghost before = title@;
        assert(rest[0] == c);
        assert(rest.drop_first() =~= chars@.skip(i + 1));
        if c == '-' {
            title.push(' ');
            at_start = true;
            assert(title@ + title_from(chars@.skip(i + 1), true) =~= before + (seq![' ']
                + title_from(rest.drop_first(), true)));
        } else if at_start {
            let upper = to_uppercase(c);
            title.append(upper.as_str());
            at_start = false;
            assert(title@ + title_from(chars@.skip(i + 1), false) =~= before + (uppercase(c)
                + title_from(rest.drop_first(), false)));
        } else {
            title.push(c);
            assert(title@ + title_from(chars@.skip(i + 1), false) =~= before + (seq![c]
                + title_from(rest.drop_first(), false)));
        }
        i += 1;
    }
    assert(title@ + Seq::<char>::empty() =~= title@);
    title
}

/// `s` with a `-` in place of every space and every underscore.
pub fn with_dashes(s: &str) -> (out: String)
    ensures
        out@ == dashed(s@),
{
    let chars = chars_of(s);
    let mut out = String::new();
    let mut i: usize = 0;
    while i < chars.len()
        invariant
            i <= chars@.len(),
            chars@ == s@,
            out@ == dashed(s@).take(i as int),
        decreases chars@.len() - i,
    {
        let c = chars[i];
        if c == ' ' || c == '_' {
            out.push('-');
        } else {
            out.push(c);
        }
        assert(out@ =~= dashed(s@).take(i + 1));
        i += 1;
    }
    assert(dashed(s@).take(s@.len() as int) =~= dashed(s@));
    out
}

/// The values that a project starts with where nobody is asked: its id,
/// made from the name of its directory, the title that goes with the id,
/// a description, a publisher and a version.
pub fn get_default_values(directory_name: Option<&str>) -> (values: (
    String,
    String,
    String,
    String,
    String,
))
    ensures
        values.0@ == default_project_id(directory_name),
        values.1@ == title_of(values.0@),
        values.2@ == "A Canon Protocol project"@,
        values.3@ == "example.com"@,
        values.4@ == "0.1.0"@,
{
    let name = match directory_name {
        Some(name) => name,
        None => "my-project",
    };
    let lowered = to_lowercase(name);
    let project_id = with_dashes(lowered.as_str());
    let project_title = format_title(project_id.as_str());
    (
        project_id,
        project_title,
        String::from_str("A Canon Protocol project"),
        String::from_str("example.com"),
        String::from_str("0.1.0"),
    )
}

/// Whether `input` may be a project id: lower-case letters, digits and `-`.
pub fn is_valid_project_id(input: &str) -> (r: bool)
    ensures
        r == plain_name(input@, '-'),
{
    is_plain_name(input, '-')
}

/// Whether `input` may be a publisher.
pub fn is_valid_publisher_input(input: &str) -> (r: bool)
    ensures
        r == publisher_input(input@),
{
    let chars = chars_of(input);
    let dot = find_char(&chars, '.');
    proof {
        lemma_first_index_occurs(chars@, '.');
    }
    dot < chars.len() || same_text(input, "localhost")
}

/// Whether a project may be started where a document is there already
/// or not: a document that is there is only replaced where `force` asks
/// for it.
pub fn check_overwrite(document_exists: bool, force: bool) -> (r: Result<(), CanonError>)
    ensures
        r is Err <==> document_exists && !force,
        r matches Err(e) ==> e matches CanonError::Command { message } && message@
            == "canon.yml already exists. Use --force to overwrite."@,
{
    if document_exists && !force {
        Err(
            CanonError::Command {
                message: String::from_str("canon.yml already exists. Use --force to overwrite."),
            },
        )
    } else {
        Ok(())
    }
}

/// The first document of a project: an instance of the project type that
/// depends on the type of type definitions and on nothing else.
pub fn create_project_spec(
    id: &str,
    version: &str,
    publisher: &str,
    title: &str,
    description: &str,
) -> (spec: CanonSpecification)
    ensures
        spec@ == project_spec(id@, version@, publisher@, title@, description@),
        spec@.well_formed(),
{
    let mut dependencies: Vec<Value> = Vec::new();
    dependencies.push(Value::String(String::from_str("canon-protocol.org/type@1.0.0")));
    proof {
        lemma_sequence_view(dependencies);
        assert(dependencies.deep_view() =~= seq![
            ValueView::String("canon-protocol.org/type@1.0.0"@),
        ]);
        assert(well_formed(dependencies.deep_view()[0]));
        assert(well_formed(ValueView::Sequence(dependencies.deep_view())));
    }
    let mut content: Vec<(String, Value)> = Vec::new();
    content.push((String::from_str("dependencies"), Value::Sequence(dependencies)));
    assert(content.deep_view() =~= project_spec(
        id@,
        version@,
        publisher@,
        title@,
        description@,
    ).content);
    CanonSpecification {
        canon: String::from_str("1.0"),
        type_reference: String::from_str("canon-protocol.org/project@1.0.0"),
        metadata: SpecificationMetadata {
            id: String::from_str(id),
            version: String::from_str(version),
            publisher: String::from_str(publisher),
            title: Some(String::from_str(title)),
            description: Some(String::from_str(description)),
        },
        includes: None,
        schema: None,
        content,
    }
}

/// What is to be written as the ignore file, given what it holds now;
/// `None` where nothing is to be written.
pub fn add_to_gitignore(existing: Option<&str>) -> (to_write: Option<String>)
    ensures
        to_write.deep_view() == ignore_file_text(existing),
{
    match existing {
        None => Some(String::from_str(".canon/\n")),
        Some(content) => {
            if has_text(content, ".canon/") {
                None
            } else {
                let mut out = String::from_str(content);
                if !has_suffix(content, "\n") {
                    out.append("\n");
                }
                out.append(".canon/");
                out.append("\n");
                Some(out)
            }
        },
    }
}

/// What to do after a project was started, line by line. A project that
/// still has the publisher it started with is told to change it first.
pub fn next_steps(publisher: &str) -> (steps: Vec<String>)
    ensures
        steps.deep_view() == if publisher@ == "example.com"@ {
            seq![
                "  1. Update the publisher field in canon.yml to your domain"@,
                "  2. Run canon validate to validate your specification"@,
                "  3. Run canon add <uri> to add dependencies as needed"@,
            ]
        } else {
            seq![
                "  1. Run canon validate to validate your specification"@,
                "  2. Run canon add <uri> to add dependencies as needed"@,
            ]
        },
{
    let mut steps: Vec<String> = Vec::new();
    if same_text(publisher, "example.com") {
        steps.push(String::from_str("  1. Update the publisher field in canon.yml to your domain"));
        steps.push(String::from_str("  2. Run canon validate to validate your specification"));
        steps.push(String::from_str("  3. Run canon add <uri> to add dependencies as needed"));
        assert(steps.deep_view() =~= seq![
            "  1. Update the publisher field in canon.yml to your domain"@,
            "  2. Run canon validate to validate your specification"@,
            "  3. Run canon add <uri> to add dependencies as needed"@,
        ]);
    } else {
        steps.push(String::from_str("  1. Run canon validate to validate your specification"));
        steps.push(String::from_str("  2. Run canon add <uri> to add dependencies as needed"));
        assert(steps.deep_view() =~= seq![
            "  1. Run canon validate to validate your specification"@,
            "  2. Run canon add <uri> to add dependencies as needed"@,
        ]);
    }
    steps
}

} // verus!
