//! Installing the dependencies that a document names: which they are,
//! where their files are fetched from, and the count of how it went.

use crate::error::CanonError;
use crate::keyed::{find_key, has_key, key_index};
use crate::text::{
    chars_of, decimal, has_at, holds_at, push_chars, push_decimal,
};
use crate::value::{lemma_sequence_view, Value, ValueView};
use vstd::prelude::*;
use vstd::string::*;

verus! {

/// The texts among `values`, in their order; other values are passed
/// over.
pub open spec fn texts_of(values: Seq<ValueView>) -> Seq<Seq<char>>
    decreases values.len(),
{
    if values.len() == 0 {
        Seq::empty()
    } else {
        texts_of(values.drop_last()) + match values.last() {
            ValueView::String(s) => seq![s],
            _ => Seq::empty(),
        }
    }
}

/// The dependencies that a document names: the texts in the sequence
/// under `dependencies`; none where there is no such sequence.
pub open spec fn named_dependencies(content: Seq<(Seq<char>, ValueView)>) -> Seq<Seq<char>> {
    if has_key(content, "dependencies"@) {
        match content[key_index(content, "dependencies"@)].1 {
            ValueView::Sequence(items) => texts_of(items),
            _ => Seq::empty(),
        }
    } else {
        Seq::empty()
    }
}

/// `s` with `replacement` in place of every `pattern`, found from left
/// to right; what is found does not overlap. An empty pattern is found
/// nowhere.
pub open spec fn replaced(s: Seq<char>, pattern: Seq<char>, replacement: Seq<char>) -> Seq<char>
    decreases s.len(),
{
    if pattern.len() == 0 || s.len() < pattern.len() {
        s
    } else if holds_at(s, pattern, 0) {
        replacement + replaced(s.skip(pattern.len() as int), pattern, replacement)
    } else {
        seq![s[0]] + replaced(s.drop_first(), pattern, replacement)
    }
}

/// The address of the manifest that goes with the document at
/// `document_url`.
pub open spec fn manifest_url_of(document_url: Seq<char>) -> Seq<char> {
    replaced(document_url, "/canon.yml"@, "/canon-manifest.yml"@)
}

/// The address of the signature that goes with the document at
/// `document_url`.
pub open spec fn signature_url_of(document_url: Seq<char>) -> Seq<char> {
    replaced(document_url, "/canon.yml"@, "/canon-signature.yml"@)
}

/// How the installation of one dependency went.
#[derive(Debug, Clone, Copy, PartialEq, Eq, Structural)]
pub enum InstallOutcome {
    /// It was fetched and stored.
    Installed,
    /// It was there already.
    AlreadyInstalled,
    /// Its name is no reference, or it could not be fetched or stored.
    Failed,
}

/// The count of how the installation of a document's dependencies went.
#[derive(Debug, Clone, Copy, PartialEq, Eq, Structural)]
pub struct InstallTally {
    pub total: usize,
    pub installed: usize,
    pub skipped: usize,
    pub failed: usize,
}

impl InstallTally {
    /// Whether no more outcomes are counted than there are dependencies.
    pub open spec fn well_formed(&self) -> bool {
        self.counted() <= self.total
    }

    /// How many outcomes are counted.
    pub open spec fn counted(&self) -> int {
        self.installed + self.skipped + self.failed
    }

    /// The tally with one more outcome counted.
    pub open spec fn with(self, outcome: InstallOutcome) -> InstallTally {
        match outcome {
            InstallOutcome::Installed => InstallTally {
                installed: (self.installed + 1) as usize,
                ..self
            },
            InstallOutcome::AlreadyInstalled => InstallTally {
                skipped: (self.skipped + 1) as usize,
                ..self
            },
            InstallOutcome::Failed => InstallTally { failed: (self.failed + 1) as usize, ..self },
        }
    }

    /// The tally before the first of `total` dependencies.
    pub fn new(total: usize) -> (tally: InstallTally)
        ensures
            tally == (InstallTally { total, installed: 0, skipped: 0, failed: 0 }),
            tally.well_formed(),
    {
        InstallTally { total, installed: 0, skipped: 0, failed: 0 }
    }

    /// Whether every dependency has its outcome.
    pub fn is_complete(&self) -> (r: bool)
        ensures
            r == (self.counted() >= self.total),
    {
        self.installed as u128 + self.skipped as u128 + self.failed as u128 >= self.total as u128
    }

    /// Counts the outcome of one more dependency. Nothing changes where
    /// every dependency has its outcome already.
    pub fn record(&mut self, outcome: InstallOutcome)
        ensures
            old(self).well_formed() ==> final(self).well_formed(),
            *final(self) == if old(self).counted() < old(self).total {
                old(self).with(outcome)
            } else {
                *old(self)
            },
    {
        if self.is_complete() {
            return ;
        }
        match outcome {
            InstallOutcome::Installed => {
                self.installed = self.installed + 1;
            },
            InstallOutcome::AlreadyInstalled => {
                self.skipped = self.skipped + 1;
            },
            InstallOutcome::Failed => {
                self.failed = self.failed + 1;
            },
        }
    }

    /// How the installation ends: with an error that says how many
    /// dependencies failed, where one did.
    pub fn finish(&self) -> (r: Result<(), CanonError>)
        ensures
            r is Err <==> self.failed > 0,
            r matches Err(e) ==> e matches CanonError::Command { message } && message@ == decimal(
                self.failed as nat,
            ) + " dependencies failed to install"@,
    {
        if self.failed > 0 {
            let mut message = String::new();
            push_decimal(&mut message, self.failed as u64);
            message.append(" dependencies failed to install");
            assert(message@ =~= decimal(self.failed as nat) + " dependencies failed to install"@);
            Err(CanonError::Command { message })
        } else {
            Ok(())
        }
    }
}

/// The dependencies that a document names.
pub fn dependencies_of(content: &Vec<(String, Value)>) -> (names: Vec<String>)
    ensures
        names.deep_view() == named_dependencies(content.deep_view()),
{
    let mut names: Vec<String> = Vec::new();
    assert(names.deep_view() =~= Seq::empty());
    let key = String::from_str("dependencies");
    let at = find_key(content, &key);
    if at >= content.len() {
        return names;
    }
    assert(content.deep_view()[at as int] == (content@[at as int].0@, content@[at as int].1@));
    if let Value::Sequence(items) = &content[at].1 {
        proof {
            lemma_sequence_view(*items);
        }
        let ghost views = items.deep_view();
        let mut i: usize = 0;
        assert(views.take(0) =~= Seq::<ValueView>::empty());
        while i < items.len()
            invariant
                i <= items@.len(),
                views == items.deep_view(),
                names.deep_view() == texts_of(views.take(i as int)),
            decreases items@.len() - i,
        {
            assert(views.take(i + 1).drop_last() =~= views.take(i as int));
            assert(views.take(i + 1).last() == items@[i as int]@);
            let ghost before = names.deep_view();
            if let Value::String(s) = &items[i] {
                names.push(s.clone());
                assert(names.deep_view() =~= before + seq![s@]);
            } else {
                assert(before + Seq::<Seq<char>>::empty() =~= before);
            }
            i += 1;
        }
        assert(views.take(views.len() as int) =~= views);
    }
    names
}

/// `s` with `replacement` in place of every `pattern`, found from left
/// to right; what is found does not overlap. An empty pattern is found
/// nowhere.
pub fn replace_all(s: &str, pattern: &str, replacement: &str) -> (out: String)
    ensures
        out@ == replaced(s@, pattern@, replacement@),
{
    let chars = chars_of(s);
    let wanted = chars_of(pattern);
    let put = chars_of(replacement);
    let mut out = String::new();
    let mut i: usize = 0;
    assert(chars@.skip(0) =~= chars@);
    assert(Seq::<char>::empty() + replaced(s@, pattern@, replacement@) =~= replaced(
        s@,
        pattern@,
        replacement@,
    ));
    if wanted.len() == 0 {
        return String::from_str(s);
    }
    while i < chars.len()
        invariant
            i <= chars@.len(),
            chars@ == s@,
            wanted@ == pattern@,
            put@ == replacement@,
            wanted@.len() > 0,
            out@ + replaced(chars@.skip(i as int), wanted@, put@) == replaced(s@, wanted@, put@),
        decreases chars@.len() - i,
    {
        let ghost rest = chars@.skip(i as int);
        let ghost before = out@;
        proof {
            assert(rest[0] == chars@[i as int]);
            assert(rest.drop_first() =~= chars@.skip(i + 1));
            if rest.len() >= wanted@.len() {
                assert(rest.subrange(0, wanted@.len() as int) =~= chars@.subrange(
                    i as int,
                    i + wanted@.len(),
                ));
                assert(rest.skip(wanted@.len() as int) =~= chars@.skip(i + wanted@.len()));
            }
        }
        if chars.len() - i < wanted.len() {
            let mut j: usize = i;
            assert(chars@.subrange(i as int, i as int) =~= Seq::<char>::empty());
            assert(before + Seq::<char>::empty() =~= before);
            while j < chars.len()
                invariant
                    i <= j <= chars@.len(),
                    out@ == before + chars@.subrange(i as int, j as int),
                decreases chars@.len() - j,
            {
                out.push(chars[j]);
                assert(before + chars@.subrange(i as int, j + 1) =~= (before + chars@.subrange(
                    i as int,
                    j as int,
                )).push(chars@[j as int]));
                j += 1;
            }
            assert(chars@.subrange(i as int, chars@.len() as int) =~= rest);
            assert(chars@.skip(chars@.len() as int) =~= Seq::<char>::empty());
            assert(replaced(Seq::<char>::empty(), wanted@, put@) =~= Seq::<char>::empty());
            assert(out@ + Seq::<char>::empty() =~= out@);
            i = chars.len();
        } else if has_at(&chars, &wanted, i) {
            push_chars(&mut out, &put);
            assert(out@ + replaced(chars@.skip(i + wanted@.len()), wanted@, put@) =~= before + (put@
                + replaced(rest.skip(wanted@.len() as int), wanted@, put@)));
            i += wanted.len();
        } else {
            out.push(chars[i]);
            assert(out@ + replaced(chars@.skip(i + 1), wanted@, put@) =~= before + (seq![
                chars@[i as int],
            ] + replaced(rest.drop_first(), wanted@, put@)));
            i += 1;
        }
    }
    assert(chars@.skip(chars@.len() as int) =~= Seq::<char>::empty());
    assert(out@ + Seq::<char>::empty() =~= out@);
    out
}

/// The address of the manifest that goes with the document at
/// `document_url`.
pub fn manifest_url(document_url: &str) -> (url: String)
    ensures
        url@ == manifest_url_of(document_url@),
{
    replace_all(document_url, "/canon.yml", "/canon-manifest.yml")
}

/// The address of the signature that goes with the document at
/// `document_url`.
pub fn signature_url(document_url: &str) -> (url: String)
    ensures
        url@ == signature_url_of(document_url@),
{
    replace_all(document_url, "/canon.yml", "/canon-signature.yml")
}

} // verus!
