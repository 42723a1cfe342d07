//! Adding a dependency to a project's document.

use crate::dependency::{invalid_uri_text, parse_uri, Dependency};
use crate::error::{CanonError, ProtocolError};
use crate::keyed::{distinct_keys, find_key, has_key, key_index, lemma_key_index};
use crate::value::{lemma_sequence_view, well_formed, Value, ValueView};
use vstd::prelude::*;
use vstd::string::*;

verus! {

/// Whether `values` holds the text `text` as a string value.
pub open spec fn lists_text(values: Seq<ValueView>, text: Seq<char>) -> bool {
    exists|i: int| 0 <= i < values.len() && #[trigger] values[i] == ValueView::String(text)
}

/// What adding the dependency `uri` to a document with the content
/// `content` comes to.
pub enum Addition {
    /// `uri` is no reference.
    Refused,
    /// The document's `dependencies` is not a sequence.
    NotASequence,
    /// The document names `uri` already.
    Present,
    /// `uri` goes behind the dependencies named so far, which stand at
    /// this position of the content.
    Appended(int),
    /// The document has no `dependencies` yet: the entry is made, behind
    /// all others, with `uri` in it.
    Created,
}

/// What adding the dependency `uri` comes to.
pub open spec fn addition(content: Seq<(Seq<char>, ValueView)>, uri: Seq<char>) -> Addition {
    let at = key_index(content, "dependencies"@);
    if parse_uri(uri) is None {
        Addition::Refused
    } else if !has_key(content, "dependencies"@) {
        Addition::Created
    } else {
        match content[at].1 {
            ValueView::Sequence(items) => if lists_text(items, uri) {
                Addition::Present
            } else {
                Addition::Appended(at)
            },
            _ => Addition::NotASequence,
        }
    }
}

/// The content with the dependency `uri` added: behind the dependencies
/// that it names, or in a new entry behind all others where it names
/// none. The content as it is where nothing is added.
pub open spec fn with_dependency(
    content: Seq<(Seq<char>, ValueView)>,
    uri: Seq<char>,
) -> Seq<(Seq<char>, ValueView)> {
    match addition(content, uri) {
        Addition::Appended(at) => content.update(
            at,
            (
                content[at].0,
                ValueView::Sequence(content[at].1->Sequence_0.push(ValueView::String(uri))),
            ),
        ),
        Addition::Created => content.push(
            ("dependencies"@, ValueView::Sequence(seq![ValueView::String(uri)])),
        ),
        _ => content,
    }
}

/// Adding a dependency keeps the names of the entries apart and every
/// mapping in them well formed.
pub proof fn lemma_with_dependency_well_formed(content: Seq<(Seq<char>, ValueView)>, uri: Seq<char>)
    requires
        distinct_keys(content),
        forall|i: int| 0 <= i < content.len() ==> well_formed((#[trigger] content[i]).1),
    ensures
        distinct_keys(with_dependency(content, uri)),
        forall|i: int|
            0 <= i < with_dependency(content, uri).len() ==> well_formed(
                (#[trigger] with_dependency(content, uri)[i]).1,
            ),
{
    let after = with_dependency(content, uri);
    let added = ValueView::String(uri);
    match addition(content, uri) {
        Addition::Appended(at) => {
            lemma_key_index(content, "dependencies"@);
            let before = content[at].1->Sequence_0;
            assert(well_formed(content[at].1));
            assert forall|k: int| 0 <= k < before.push(added).len() implies well_formed(
                #[trigger] before.push(added)[k],
            ) by {
                if k < before.len() {
                    assert(before.push(added)[k] == before[k]);
                }
            }
            assert(well_formed(ValueView::Sequence(before.push(added))));
            assert forall|i: int| 0 <= i < after.len() implies well_formed(
                (#[trigger] after[i]).1,
            ) by {
                if i != at {
                    assert(after[i] == content[i]);
                }
            }
            assert forall|i: int, j: int| 0 <= i < j < after.len() implies (#[trigger] after[i]).0
                != (#[trigger] after[j]).0 by {
                assert(after[i].0 == content[i].0);
                assert(after[j].0 == content[j].0);
            }
        },
        Addition::Created => {
            lemma_key_index(content, "dependencies"@);
            assert(well_formed(seq![added][0]));
            assert(well_formed(ValueView::Sequence(seq![added])));
            assert forall|i: int| 0 <= i < after.len() implies well_formed(
                (#[trigger] after[i]).1,
            ) by {
                if i < content.len() {
                    assert(after[i] == content[i]);
                }
            }
            assert forall|i: int, j: int| 0 <= i < j < after.len() implies (#[trigger] after[i]).0
                != (#[trigger] after[j]).0 by {
                assert(after[i] == content[i]);
                if j < content.len() {
                    assert(after[j] == content[j]);
                }
            }
        },
        _ => {},
    }
}

/// Whether `values` holds the text `text` as a string value.
pub fn has_text_value(values: &Vec<Value>, text: &String) -> (r: bool)
    ensures
        r == lists_text(values.deep_view(), text@),
{
    let ghost views = values.deep_view();
    let mut i: usize = 0;
    while i < values.len()
        invariant
            i <= values@.len(),
            views == values.deep_view(),
            forall|k: int| 0 <= k < i ==> #[trigger] views[k] != ValueView::String(text@),
        decreases values@.len() - i,
    {
        assert(views[i as int] == values@[i as int]@);
        if let Value::String(s) = &values[i] {
            if *s == *text {
                return true;
            }
        }
        i += 1;
    }
    false
}

/// Adds the dependency `uri` to the content of a document, behind the
/// dependencies that it names already. Says whether the content changed:
/// it does not where the document names `uri` already.
///
/// Fails, and leaves the content as it is, where `uri` is no reference
/// and where the document's `dependencies` is not a sequence.
pub fn add_dependency(content: &mut Vec<(String, Value)>, uri: &str) -> (r: Result<
    bool,
    CanonError,
>)
    ensures
        final(content).deep_view() == with_dependency(old(content).deep_view(), uri@),
        match addition(old(content).deep_view(), uri@) {
            Addition::Refused => r matches Err(CanonError::Protocol(ProtocolError::InvalidUri(m)))
                && m@ == invalid_uri_text(uri@),
            Addition::NotASequence => r matches Err(CanonError::Config { message }) && message@
                == "Dependencies field must be an array"@,
            Addition::Present => r == Ok::<bool, CanonError>(false),
            Addition::Appended(_) => r == Ok::<bool, CanonError>(true),
            Addition::Created => r == Ok::<bool, CanonError>(true),
        },
{
    let ghost before = content.deep_view();
    if let Err(e) = Dependency::parse(uri) {
        return Err(CanonError::Protocol(e));
    }
    let key = String::from_str("dependencies");
    let text = String::from_str(uri);
    let at = find_key(content, &key);
    if at >= content.len() {
        let mut items: Vec<Value> = Vec::new();
        items.push(Value::String(text));
        proof {
            lemma_sequence_view(items);
            assert(items.deep_view() =~= seq![ValueView::String(uri@)]);
        }
        content.push((key, Value::Sequence(items)));
        assert(content.deep_view() =~= with_dependency(before, uri@));
        return Ok(true);
    }
    assert(before[at as int] == (content@[at as int].0@, content@[at as int].1@));
    match &content[at].1 {
        Value::Sequence(items) => {
            proof {
                lemma_sequence_view(*items);
            }
            if has_text_value(items, &text) {
                return Ok(false);
            }
        },
        _ => {
            return Err(
                CanonError::Config {
                    message: String::from_str("Dependencies field must be an array"),
                },
            );
        },
    }
    let (name, value) = content.remove(at);
    match value {
        Value::Sequence(mut items) => {
            let ghost named = items.deep_view();
            items.push(Value::String(text));
            proof {
                lemma_sequence_view(items);
                assert(items.deep_view() =~= named.push(ValueView::String(uri@)));
            }
            content.insert(at, (name, Value::Sequence(items)));
        },
        other => {
            content.insert(at, (name, other));
        },
    }
    assert(content.deep_view() =~= with_dependency(before, uri@));
    Ok(true)
}

} // verus!
