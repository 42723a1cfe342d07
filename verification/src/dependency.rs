//! References to other documents: `publisher/id`, optionally followed by
//! `@` and a version, which may be led by a compatibility operator.

use crate::error::ProtocolError;
use crate::text::{
    after_first, before_first, chars_of, count_char, find_char, first_index, lemma_first_index,
    lemma_first_index_occurs, lemma_first_index_unique, lemma_occurrences_concat,
    lemma_occurrences_none, occurrences, sub_chars, text_of,
};
use vstd::prelude::*;
use vstd::string::*;

verus! {

/// The compatibility operator that may lead a version.
#[derive(Debug, Clone, Copy, PartialEq, Eq, Structural)]
pub enum VersionOperator {
    /// `^`: compatible changes.
    Caret,
    /// `~`: patch-level changes.
    Tilde,
}

/// A parsed reference.
#[derive(Debug, Clone)]
pub struct Dependency {
    pub publisher: String,
    pub id: String,
    pub version: Option<String>,
    pub version_operator: Option<VersionOperator>,
}

/// A reference as plain sequences of characters.
pub struct DependencyView {
    pub publisher: Seq<char>,
    pub id: Seq<char>,
    pub version: Option<Seq<char>>,
    pub version_operator: Option<VersionOperator>,
}

impl View for Dependency {
    type V = DependencyView;

    open spec fn view(&self) -> DependencyView {
        DependencyView {
            publisher: self.publisher@,
            id: self.id@,
            version: match self.version {
                Some(v) => Some(v@),
                None => None,
            },
            version_operator: self.version_operator,
        }
    }
}

/// The operator that leads a version segment: decided by its first
/// character alone.
pub open spec fn leading_operator(segment: Seq<char>) -> Option<VersionOperator> {
    if segment.len() > 0 && segment[0] == '^' {
        Some(VersionOperator::Caret)
    } else if segment.len() > 0 && segment[0] == '~' {
        Some(VersionOperator::Tilde)
    } else {
        None
    }
}

/// The version that a segment names: the segment without its operator.
pub open spec fn bare_version(segment: Seq<char>) -> Seq<char> {
    if leading_operator(segment) is Some {
        segment.skip(1)
    } else {
        segment
    }
}

/// The reference that `uri` denotes. The path is what stands before the
/// first `@`; it has to hold exactly one `/`, which parts publisher and id.
/// What follows the first `@` is the version segment.
pub open spec fn parse_uri(uri: Seq<char>) -> Option<DependencyView> {
    let path = before_first(uri, '@');
    if occurrences(path, '/') != 1 {
        None
    } else {
        Some(
            DependencyView {
                publisher: before_first(path, '/'),
                id: path.skip(first_index(path, '/') + 1),
                version: match after_first(uri, '@') {
                    Some(segment) => Some(bare_version(segment)),
                    None => None,
                },
                version_operator: match after_first(uri, '@') {
                    Some(segment) => leading_operator(segment),
                    None => None,
                },
            },
        )
    }
}

/// The text of a reference. An operator without a version is not written.
pub open spec fn uri_of(d: DependencyView) -> Seq<char> {
    let path = d.publisher.push('/') + d.id;
    match (d.version, d.version_operator) {
        (Some(v), Some(VersionOperator::Caret)) => path.push('@').push('^') + v,
        (Some(v), Some(VersionOperator::Tilde)) => path.push('@').push('~') + v,
        (Some(v), None) => path.push('@') + v,
        (None, _) => path,
    }
}

/// The text carried by the error for a `uri` that denotes no reference.
pub open spec fn invalid_uri_text(uri: Seq<char>) -> Seq<char> {
    "Invalid dependency URI format: "@ + uri + ". Expected format: publisher/id[@version]"@
}

/// The version that a fetch asks for where the reference names none.
pub open spec fn version_or_latest(d: DependencyView) -> Seq<char> {
    match d.version {
        Some(v) => v,
        None => "latest"@,
    }
}

/// The address a reference is fetched from.
pub open spec fn canon_url_of(d: DependencyView) -> Seq<char> {
    "https://canon.canon-protocol.org/"@ + d.publisher + "/"@ + d.id + "/"@ + version_or_latest(d)
        + "/canon.yml"@
}

/// The nested storage location of a reference: the store's root, then
/// publisher, id and, where there is one, version.
pub open spec fn local_path_of(d: DependencyView) -> Seq<Seq<char>> {
    let base = seq![".canon"@, d.publisher, d.id];
    match d.version {
        Some(v) => base.push(v),
        None => base,
    }
}

/// Reads the operator off the first character of a version segment.
pub fn operator_of(segment: &Vec<char>) -> (op: Option<VersionOperator>)
    ensures
        op == leading_operator(segment@),
{
    if segment.len() > 0 && segment[0] == '^' {
        Some(VersionOperator::Caret)
    } else if segment.len() > 0 && segment[0] == '~' {
        Some(VersionOperator::Tilde)
    } else {
        None
    }
}

impl Dependency {
    /// Parses a reference such as `canon-protocol.org/type@1.0.0` or
    /// `profiles.org/author@^1.0.0`.
    ///
    /// Fails with `InvalidUri` exactly where the path before the first `@`
    /// does not hold exactly one `/`.
    pub fn parse(uri: &str) -> (r: Result<Dependency, ProtocolError>)
        ensures
            match parse_uri(uri@) {
                Some(d) => r matches Ok(dep) && dep@ == d,
                None => r matches Err(ProtocolError::InvalidUri(m)) && m@ == invalid_uri_text(uri@),
            },
            r is Err <==> occurrences(before_first(uri@, '@'), '/') != 1,
            r matches Ok(dep) ==> uri_of(dep@) == uri@,
    {
        let chars = chars_of(uri);
        let at = find_char(&chars, '@');
        proof {
            lemma_first_index(chars@, '@');
            lemma_uri_round_trip(uri@);
        }
        let path = sub_chars(&chars, 0, at);
        if count_char(&path, '/') != 1 {
            let mut m = String::from_str("Invalid dependency URI format: ");
            m.append(uri);
            m.append(". Expected format: publisher/id[@version]");
            return Err(ProtocolError::InvalidUri(m));
        }
        let slash = find_char(&path, '/');
        proof {
            lemma_first_index(path@, '/');
            lemma_first_index_occurs(path@, '/');
        }
        let publisher = text_of(&path, 0, slash);
        let id = text_of(&path, slash + 1, path.len());
        if at < chars.len() {
            let segment = sub_chars(&chars, at + 1, chars.len());
            let version_operator = operator_of(&segment);
            let version = if version_operator.is_some() {
                text_of(&segment, 1, segment.len())
            } else {
                text_of(&segment, 0, segment.len())
            };
            assert(segment@.subrange(0, segment@.len() as int) =~= segment@);
            Ok(Dependency { publisher, id, version: Some(version), version_operator })
        } else {
            Ok(Dependency { publisher, id, version: None, version_operator: None })
        }
    }

    /// The nested storage location of this reference, one segment after
    /// the other.
    pub fn local_path(&self) -> (segments: Vec<String>)
        ensures
            segments.deep_view() == local_path_of(self@),
    {
        let mut segments: Vec<String> = Vec::new();
        segments.push(String::from_str(".canon"));
        segments.push(self.publisher.clone());
        segments.push(self.id.clone());
        if let Some(v) = &self.version {
            segments.push(v.clone());
        }
        assert(segments.deep_view() =~= local_path_of(self@));
        segments
    }

    /// The address this reference is fetched from; `latest` stands in for
    /// a version that is not named.
    pub fn canon_url(&self) -> (url: String)
        ensures
            url@ == canon_url_of(self@),
    {
        let mut url = String::from_str("https://canon.canon-protocol.org/");
        url.append(self.publisher.as_str());
        url.append("/");
        url.append(self.id.as_str());
        url.append("/");
        match &self.version {
            Some(v) => url.append(v.as_str()),
            None => url.append("latest"),
        }
        url.append("/canon.yml");
        url
    }

    /// The text of this reference.
    pub fn to_uri(&self) -> (uri: String)
        ensures
            uri@ == uri_of(self@),
    {
        let mut uri = self.publisher.clone();
        uri.push('/');
        uri.append(self.id.as_str());
        match (&self.version, &self.version_operator) {
            (Some(v), Some(VersionOperator::Caret)) => {
                uri.push('@');
                uri.push('^');
                uri.append(v.as_str());
            },
            (Some(v), Some(VersionOperator::Tilde)) => {
                uri.push('@');
                uri.push('~');
                uri.append(v.as_str());
            },
            (Some(v), None) => {
                uri.push('@');
                uri.append(v.as_str());
            },
            (None, _) => {},
        }
        uri
    }
}

/// Writing a parsed reference gives back the text it was parsed from.
pub proof fn lemma_uri_round_trip(uri: Seq<char>)
    ensures
        parse_uri(uri) matches Some(d) ==> uri_of(d) == uri,
{
    if let Some(d) = parse_uri(uri) {
        let path = before_first(uri, '@');
        lemma_first_index(uri, '@');
        lemma_first_index(path, '/');
        lemma_first_index_occurs(path, '/');
        let slash = first_index(path, '/');
        assert(d.publisher.push('/') + d.id =~= path);
        match after_first(uri, '@') {
            Some(segment) => {
                assert(path.push('@') + segment =~= uri);
                if leading_operator(segment) is Some {
                    assert(path.push('@').push(segment[0]) + segment.skip(1) =~= uri);
                }
            },
            None => {
                assert(path =~= uri);
            },
        }
    }
}

/// Text is refused exactly where its path, the part before the first `@`,
/// does not hold exactly one `/`.
pub proof fn lemma_invalid_uri(uri: Seq<char>)
    ensures
        parse_uri(uri) is None <==> occurrences(before_first(uri, '@'), '/') != 1,
{
}

/// Whether parsing can have produced `d`: publisher and id hold neither `/`
/// nor `@`, an operator comes with a version only, and a version without
/// operator does not start like one.
pub open spec fn parseable(d: DependencyView) -> bool {
    &&& occurrences(d.publisher, '/') == 0
    &&& occurrences(d.publisher, '@') == 0
    &&& occurrences(d.id, '/') == 0
    &&& occurrences(d.id, '@') == 0
    &&& d.version is None ==> d.version_operator is None
    &&& d.version matches Some(v) ==> (d.version_operator is None ==> leading_operator(v) is None)
}

/// Parsing the text of such a reference gives the reference back.
pub proof fn lemma_reference_round_trip(d: DependencyView)
    requires
        parseable(d),
    ensures
        parse_uri(uri_of(d)) == Some(d),
{
    let path = d.publisher.push('/') + d.id;
    let uri = uri_of(d);
    lemma_occurrences_none(d.publisher, '/');
    lemma_occurrences_none(d.publisher, '@');
    lemma_occurrences_none(d.id, '/');
    lemma_occurrences_none(d.id, '@');
    assert(forall|i: int| 0 <= i < path.len() ==> path[i] != '@');
    lemma_first_index_unique(path, '/', d.publisher.len() as int);
    lemma_occurrences_concat(d.publisher.push('/'), d.id, '/');
    assert(d.publisher.push('/').drop_last() =~= d.publisher);
    assert(occurrences(path, '/') == 1);
    assert(path.take(d.publisher.len() as int) =~= d.publisher);
    assert(path.skip(d.publisher.len() as int + 1) =~= d.id);
    match d.version {
        Some(v) => {
            let segment = uri.skip(path.len() as int + 1);
            assert(forall|i: int| 0 <= i < path.len() ==> uri[i] == path[i]);
            assert(uri[path.len() as int] == '@');
            lemma_first_index_unique(uri, '@', path.len() as int);
            assert(uri.take(path.len() as int) =~= path);
            match d.version_operator {
                Some(VersionOperator::Caret) => {
                    assert(segment =~= seq!['^'] + v);
                    assert(segment.skip(1) =~= v);
                },
                Some(VersionOperator::Tilde) => {
                    assert(segment =~= seq!['~'] + v);
                    assert(segment.skip(1) =~= v);
                },
                None => {
                    assert(segment =~= v);
                },
            }
            assert(parse_uri(uri)->0.version == Some(v));
        },
        None => {
            assert(uri =~= path);
            lemma_first_index_unique(uri, '@', uri.len() as int);
            assert(uri.take(uri.len() as int) =~= uri);
        },
    }
}

} // verus!
