//! References as a registry-backed repository writes them: `publisher/name`,
//! optionally followed by `@` and a version.

use crate::error::CanonError;
use crate::text::{
    after_first, before_first, chars_of, count_char, find_char, first_index, lemma_first_index,
    lemma_first_index_occurs, occurrences, sub_chars, text_of,
};
use vstd::prelude::*;
use vstd::string::*;

verus! {

/// A parsed reference.
#[derive(Debug, Clone)]
pub struct Dependency {
    pub publisher: String,
    pub name: String,
    pub version: Option<String>,
}

/// A reference as plain sequences of characters.
pub struct DependencyView {
    pub publisher: Seq<char>,
    pub name: Seq<char>,
    pub version: Option<Seq<char>>,
}

impl View for Dependency {
    type V = DependencyView;

    open spec fn view(&self) -> DependencyView {
        DependencyView {
            publisher: self.publisher@,
            name: self.name@,
            version: match self.version {
                Some(v) => Some(v@),
                None => None,
            },
        }
    }
}

/// The reference that `uri` denotes. The path is what stands before the
/// first `@`; it has to hold exactly one `/`, which parts publisher and
/// name. What follows the first `@` is the version, as it stands.
pub open spec fn parse_uri(uri: Seq<char>) -> Option<DependencyView> {
    let path = before_first(uri, '@');
    if occurrences(path, '/') != 1 {
        None
    } else {
        Some(
            DependencyView {
                publisher: before_first(path, '/'),
                name: path.skip(first_index(path, '/') + 1),
                version: after_first(uri, '@'),
            },
        )
    }
}

/// `s` without the characters `c` that it ends with.
pub open spec fn without_trailing(s: Seq<char>, c: char) -> Seq<char>
    decreases s.len(),
{
    if s.len() > 0 && s.last() == c {
        without_trailing(s.drop_last(), c)
    } else {
        s
    }
}

/// The version that a fetch asks for where the reference names none.
pub open spec fn version_or_latest(d: DependencyView) -> Seq<char> {
    match d.version {
        Some(v) => v,
        None => "latest"@,
    }
}

/// The address of a reference below the registry at `base`.
pub open spec fn registry_url_of(d: DependencyView, base: Seq<char>) -> Seq<char> {
    without_trailing(base, '/') + "/specs/"@ + d.publisher + "/"@ + d.name + "/"@
        + version_or_latest(d) + "/"@
}

/// The nested storage location of a reference fetched from the registry
/// `domain`: the store's root, `specs`, the registry, then publisher, name
/// and, where there is one, version.
pub open spec fn local_path_of(d: DependencyView, domain: Seq<char>) -> Seq<Seq<char>> {
    let base = seq![".canon"@, "specs"@, domain, d.publisher, d.name];
    match d.version {
        Some(v) => base.push(v),
        None => base,
    }
}

/// `s` without the characters `c` that it ends with.
pub fn trim_trailing(s: &str, c: char) -> (out: String)
    ensures
        out@ == without_trailing(s@, c),
{
    let chars = chars_of(s);
    let mut end: usize = chars.len();
    assert(chars@.take(chars@.len() as int) =~= chars@);
    while end > 0 && chars[end - 1] == c
        invariant
            end <= chars@.len(),
            without_trailing(chars@, c) == without_trailing(chars@.take(end as int), c),
        decreases end,
    {
        assert(chars@.take(end as int).drop_last() =~= chars@.take(end - 1));
        end -= 1;
    }
    text_of(&chars, 0, end)
}

impl Dependency {
    /// Parses a reference such as `canon-protocol.org/type@1.0.0`.
    ///
    /// Fails with a configuration error exactly where the path before the
    /// first `@` does not hold exactly one `/`.
    pub fn parse(uri: &str) -> (r: Result<Dependency, CanonError>)
        ensures
            match parse_uri(uri@) {
                Some(d) => r matches Ok(dep) && dep@ == d,
                None => r matches Err(CanonError::Config { message }) && message@
                    == "Invalid dependency URI format: "@ + uri@,
            },
    {
        let chars = chars_of(uri);
        let at = find_char(&chars, '@');
        proof {
            lemma_first_index(chars@, '@');
        }
        let path = sub_chars(&chars, 0, at);
        if count_char(&path, '/') != 1 {
            let mut message = String::from_str("Invalid dependency URI format: ");
            message.append(uri);
            return Err(CanonError::Config { message });
        }
        let slash = find_char(&path, '/');
        proof {
            lemma_first_index(path@, '/');
            lemma_first_index_occurs(path@, '/');
        }
        let publisher = text_of(&path, 0, slash);
        let name = text_of(&path, slash + 1, path.len());
        let version = if at < chars.len() {
            Some(text_of(&chars, at + 1, chars.len()))
        } else {
            None
        };
        Ok(Dependency { publisher, name, version })
    }

    /// The nested storage location of this reference for the registry
    /// `registry_domain`, one segment after the other.
    pub fn local_path(&self, registry_domain: &str) -> (segments: Vec<String>)
        ensures
            segments.deep_view() == local_path_of(self@, registry_domain@),
    {
        let mut segments: Vec<String> = Vec::new();
        segments.push(String::from_str(".canon"));
        segments.push(String::from_str("specs"));
        segments.push(String::from_str(registry_domain));
        segments.push(self.publisher.clone());
        segments.push(self.name.clone());
        if let Some(v) = &self.version {
            segments.push(v.clone());
        }
        assert(segments.deep_view() =~= local_path_of(self@, registry_domain@));
        segments
    }

    /// The address of this reference below the registry at
    /// `registry_base`, whose trailing slashes do not count; `latest`
    /// stands in for a version that is not named.
    pub fn registry_url(&self, registry_base: &str) -> (url: String)
        ensures
            url@ == registry_url_of(self@, registry_base@),
    {
        let mut url = trim_trailing(registry_base, '/');
        url.append("/specs/");
        url.append(self.publisher.as_str());
        url.append("/");
        url.append(self.name.as_str());
        url.append("/");
        match &self.version {
            Some(v) => url.append(v.as_str()),
            None => url.append("latest"),
        }
        url.append("/");
        url
    }
}

} // verus!
