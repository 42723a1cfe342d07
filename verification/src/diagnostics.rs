//! What a validation run finds: errors and warnings, each list in the
//! order in which the findings were made.

use vstd::prelude::*;
use vstd::string::*;

verus! {

/// The findings of a run as plain sequences of texts.
pub struct Issues {
    pub errors: Seq<Seq<char>>,
    pub warnings: Seq<Seq<char>>,
}

impl Issues {
    /// No finding.
    pub open spec fn none() -> Issues {
        Issues { errors: Seq::empty(), warnings: Seq::empty() }
    }

    /// One error.
    pub open spec fn error(text: Seq<char>) -> Issues {
        Issues { errors: seq![text], warnings: Seq::empty() }
    }

    /// One warning.
    pub open spec fn warning(text: Seq<char>) -> Issues {
        Issues { errors: Seq::empty(), warnings: seq![text] }
    }

    /// These findings and, after them, those of `next`.
    pub open spec fn and(self, next: Issues) -> Issues {
        Issues { errors: self.errors + next.errors, warnings: self.warnings + next.warnings }
    }

    /// `issue` where `when` holds, no finding otherwise.
    pub open spec fn when(when: bool, issue: Issues) -> Issues {
        if when {
            issue
        } else {
            Issues::none()
        }
    }
}

/// The findings of a run.
#[derive(Debug, Clone)]
pub struct Diagnostics {
    pub errors: Vec<String>,
    pub warnings: Vec<String>,
}

impl View for Diagnostics {
    type V = Issues;

    open spec fn view(&self) -> Issues {
        Issues { errors: self.errors.deep_view(), warnings: self.warnings.deep_view() }
    }
}

/// No finding, put before or after, changes nothing.
pub proof fn lemma_and_none(a: Issues)
    ensures
        a.and(Issues::none()) == a,
        Issues::none().and(a) == a,
{
    assert(a.errors + Seq::<Seq<char>>::empty() =~= a.errors);
    assert(a.warnings + Seq::<Seq<char>>::empty() =~= a.warnings);
    assert(Seq::<Seq<char>>::empty() + a.errors =~= a.errors);
    assert(Seq::<Seq<char>>::empty() + a.warnings =~= a.warnings);
}

/// Findings put one after the other are the same however they are
/// grouped.
pub proof fn lemma_and_assoc(a: Issues, b: Issues, c: Issues)
    ensures
        a.and(b).and(c) == a.and(b.and(c)),
{
    assert((a.errors + b.errors) + c.errors =~= a.errors + (b.errors + c.errors));
    assert((a.warnings + b.warnings) + c.warnings =~= a.warnings + (b.warnings + c.warnings));
}

impl Diagnostics {
    /// No finding yet.
    pub fn new() -> (d: Diagnostics)
        ensures
            d@ == Issues::none(),
    {
        let d = Diagnostics { errors: Vec::new(), warnings: Vec::new() };
        assert(d.errors.deep_view() =~= Seq::empty());
        assert(d.warnings.deep_view() =~= Seq::empty());
        d
    }

    /// Records an error after the findings made so far.
    pub fn error(&mut self, text: String)
        ensures
            final(self)@ == old(self)@.and(Issues::error(text@)),
    {
        self.errors.push(text);
        assert(self.errors.deep_view() =~= old(self).errors.deep_view() + seq![text@]);
        assert(self.warnings.deep_view() =~= old(self).warnings.deep_view() + Seq::empty());
    }

    /// Records a warning after the findings made so far.
    pub fn warning(&mut self, text: String)
        ensures
            final(self)@ == old(self)@.and(Issues::warning(text@)),
    {
        self.warnings.push(text);
        assert(self.warnings.deep_view() =~= old(self).warnings.deep_view() + seq![text@]);
        assert(self.errors.deep_view() =~= old(self).errors.deep_view() + Seq::empty());
    }
}

} // verus!
