//! The dynamic content of a document: a tree of scalars, sequences and
//! mappings named by text.

use crate::keyed::{distinct_keys, find_key, key_index, lemma_key_index_unique};
use crate::text::{decimal, push_decimal};
use vstd::prelude::*;
use vstd::string::*;

verus! {

/// A number of a document.
#[derive(Debug)]
pub enum Number {
    /// An integer that is not negative.
    PosInt(u64),
    /// A negative integer.
    NegInt(i64),
    /// Any other number, kept as the text that stands for it.
    Decimal(String),
}

/// A value of a document.
#[derive(Debug)]
pub enum Value {
    Null,
    Bool(bool),
    Number(Number),
    String(String),
    Sequence(Vec<Value>),
    /// Entries in the order they were written; the first entry of a name is
    /// the one that counts.
    Mapping(Vec<(String, Value)>),
}

/// A number as a plain value.
pub enum NumberView {
    PosInt(u64),
    NegInt(i64),
    Decimal(Seq<char>),
}

/// A value as a plain value: texts are sequences of characters, and
/// sequences and mappings are sequences of plain values.
pub enum ValueView {
    Null,
    Bool(bool),
    Number(NumberView),
    String(Seq<char>),
    Sequence(Seq<ValueView>),
    Mapping(Seq<(Seq<char>, ValueView)>),
}

impl View for Number {
    type V = NumberView;

    open spec fn view(&self) -> NumberView {
        match self {
            Number::PosInt(x) => NumberView::PosInt(*x),
            Number::NegInt(x) => NumberView::NegInt(*x),
            Number::Decimal(t) => NumberView::Decimal(t@),
        }
    }
}

/// The plain value that a value stands for.
pub open spec fn value_model(v: Value) -> ValueView
    decreases v,
{
    match v {
        Value::Null => ValueView::Null,
        Value::Bool(b) => ValueView::Bool(b),
        Value::Number(n) => ValueView::Number(n@),
        Value::String(s) => ValueView::String(s@),
        Value::Sequence(items) => ValueView::Sequence(
            Seq::new(
                items@.len(),
                |i: int|
                    if 0 <= i < items@.len() {
                        value_model(items@[i])
                    } else {
                        ValueView::Null
                    },
            ),
        ),
        Value::Mapping(entries) => ValueView::Mapping(
            Seq::new(
                entries@.len(),
                |i: int|
                    if 0 <= i < entries@.len() {
                        (entries@[i].0@, value_model(entries@[i].1))
                    } else {
                        (Seq::empty(), ValueView::Null)
                    },
            ),
        ),
    }
}

impl View for Value {
    type V = ValueView;

    open spec fn view(&self) -> ValueView {
        value_model(*self)
    }
}

impl DeepView for Value {
    type V = ValueView;

    open spec fn deep_view(&self) -> ValueView {
        value_model(*self)
    }
}

/// A sequence stands for the plain values of its items.
pub proof fn lemma_sequence_view(items: Vec<Value>)
    ensures
        Value::Sequence(items)@ == ValueView::Sequence(items.deep_view()),
{
    assert(Value::Sequence(items)@->Sequence_0 =~= items.deep_view());
}

/// A mapping stands for the names and plain values of its entries.
pub proof fn lemma_mapping_view(entries: Vec<(String, Value)>)
    ensures
        Value::Mapping(entries)@ == ValueView::Mapping(entries.deep_view()),
{
    assert(Value::Mapping(entries)@->Mapping_0 =~= entries.deep_view());
}

/// Whether the two numbers are the same: integers by value, other numbers
/// by their text. An integer is never the same as a number of another kind.
pub open spec fn same_number(a: NumberView, b: NumberView) -> bool {
    match (a, b) {
        (NumberView::PosInt(x), NumberView::PosInt(y)) => x == y,
        (NumberView::NegInt(x), NumberView::NegInt(y)) => x == y,
        (NumberView::Decimal(x), NumberView::Decimal(y)) => x == y,
        _ => false,
    }
}

/// Structural equality of values. Sequences are equal element by element;
/// mappings are equal where they have as many entries and every entry of
/// the first has an equal one of the same name in the second, in whatever
/// order.
pub open spec fn same_value(a: ValueView, b: ValueView) -> bool
    decreases a,
{
    match (a, b) {
        (ValueView::Null, ValueView::Null) => true,
        (ValueView::Bool(x), ValueView::Bool(y)) => x == y,
        (ValueView::Number(x), ValueView::Number(y)) => same_number(x, y),
        (ValueView::String(x), ValueView::String(y)) => x == y,
        (ValueView::Sequence(x), ValueView::Sequence(y)) => {
            &&& x.len() == y.len()
            &&& forall|i: int| 0 <= i < x.len() ==> same_value(#[trigger] x[i], y[i])
        },
        (ValueView::Mapping(x), ValueView::Mapping(y)) => {
            &&& x.len() == y.len()
            &&& forall|i: int|
                0 <= i < x.len() ==> key_index(y, (#[trigger] x[i]).0) < y.len() && same_value(
                    x[i].1,
                    y[key_index(y, x[i].0)].1,
                )
        },
        _ => false,
    }
}

/// Whether no mapping in `v` has two entries of one name.
pub open spec fn well_formed(v: ValueView) -> bool
    decreases v,
{
    match v {
        ValueView::Sequence(items) => forall|i: int|
            0 <= i < items.len() ==> well_formed(#[trigger] items[i]),
        ValueView::Mapping(entries) => {
            &&& distinct_keys(entries)
            &&& forall|i: int| 0 <= i < entries.len() ==> well_formed((#[trigger] entries[i]).1)
        },
        _ => true,
    }
}

/// A value in which no mapping has two entries of one name is equal to
/// itself.
pub proof fn lemma_same_value_reflexive(v: ValueView)
    requires
        well_formed(v),
    ensures
        same_value(v, v),
    decreases v,
{
    match v {
        ValueView::Sequence(items) => {
            assert forall|i: int| 0 <= i < items.len() implies same_value(
                #[trigger] items[i],
                items[i],
            ) by {
                lemma_same_value_reflexive(items[i]);
            }
        },
        ValueView::Mapping(entries) => {
            assert forall|i: int| 0 <= i < entries.len() implies key_index(
                entries,
                (#[trigger] entries[i]).0,
            ) < entries.len() && same_value(
                entries[i].1,
                entries[key_index(entries, entries[i].0)].1,
            ) by {
                lemma_key_index_unique(entries, entries[i].0, i);
                lemma_same_value_reflexive(entries[i].1);
            }
        },
        _ => {},
    }
}

/// Whether `values` holds a value equal to `v`.
pub open spec fn holds_value(values: Seq<ValueView>, v: ValueView) -> bool {
    exists|i: int| 0 <= i < values.len() && same_value(#[trigger] values[i], v)
}

/// A text the way Rust's `Debug` shows it: between double quotes, with the
/// characters that need it escaped.
pub uninterp spec fn quoted(s: Seq<char>) -> Seq<char>;

/// `Debug` for `str` of the standard library, through `format!`: the result
/// is the quoted and escaped form of the text, which depends on the text
/// alone.
#[verifier::external_body]
fn quote(s: &str) -> (out: String)
    ensures
        out@ == quoted(s@),
{
    format!("{:?}", s)
}

/// The text of a number: integers in decimal, with `-` before a negative
/// one; other numbers as the text they are kept as.
pub open spec fn number_text(n: NumberView) -> Seq<char> {
    match n {
        NumberView::PosInt(x) => decimal(x as nat),
        NumberView::NegInt(x) => if x < 0 {
            "-"@ + decimal((-x) as nat)
        } else {
            decimal(x as nat)
        },
        NumberView::Decimal(t) => t,
    }
}

/// The text that shows a value with its kind: `Null`, `Bool(true)`,
/// `Number(42)`, `String("a")`, `Sequence [..]` and `Mapping {..}`, the
/// parts of the last two separated by a comma and a space.
pub open spec fn debug_text(v: ValueView) -> Seq<char>
    decreases v, 0nat,
{
    match v {
        ValueView::Null => "Null"@,
        ValueView::Bool(b) => "Bool("@ + (if b {
            "true"@
        } else {
            "false"@
        }) + ")"@,
        ValueView::Number(n) => "Number("@ + number_text(n) + ")"@,
        ValueView::String(s) => string_debug_text(quoted(s)),
        ValueView::Sequence(items) => "Sequence "@ + debug_list(items),
        ValueView::Mapping(entries) => "Mapping {"@ + debug_entries(entries, entries.len()) + "}"@,
    }
}

/// The text that shows a string value, given its quoted form.
pub open spec fn string_debug_text(quoted_text: Seq<char>) -> Seq<char> {
    "String("@ + quoted_text + ")"@
}

/// The first `n` values shown one after the other, a comma and a space
/// between two of them.
pub open spec fn debug_items(items: Seq<ValueView>, n: nat) -> Seq<char>
    decreases items, n,
{
    if n == 0 || n > items.len() {
        Seq::empty()
    } else if n == 1 {
        debug_text(items[0])
    } else {
        debug_items(items, (n - 1) as nat) + ", "@ + debug_text(items[n - 1])
    }
}

/// The values shown as a list between square brackets.
pub open spec fn debug_list(items: Seq<ValueView>) -> Seq<char>
    decreases items, items.len() + 1,
{
    "["@ + debug_items(items, items.len()) + "]"@
}

/// One entry of a mapping: the quoted name, a colon and the value.
pub open spec fn entry_debug_text(quoted_name: Seq<char>, shown: Seq<char>) -> Seq<char> {
    quoted_name + ": "@ + shown
}

/// The first `n` entries shown one after the other, a comma and a space
/// between two of them.
pub open spec fn debug_entries(entries: Seq<(Seq<char>, ValueView)>, n: nat) -> Seq<char>
    decreases entries, n,
{
    if n == 0 || n > entries.len() {
        Seq::empty()
    } else if n == 1 {
        entry_debug_text(quoted(entries[0].0), debug_text(entries[0].1))
    } else {
        debug_entries(entries, (n - 1) as nat) + ", "@ + entry_debug_text(
            quoted(entries[n - 1].0),
            debug_text(entries[n - 1].1),
        )
    }
}

impl Clone for Number {
    fn clone(&self) -> (r: Number)
        ensures
            r@ == self@,
    {
        match self {
            Number::PosInt(x) => Number::PosInt(*x),
            Number::NegInt(x) => Number::NegInt(*x),
            Number::Decimal(t) => Number::Decimal(t.clone()),
        }
    }
}

impl Clone for Value {
    fn clone(&self) -> (r: Value)
        ensures
            r@ == self@,
        decreases *self,
    {
        match self {
            Value::Null => Value::Null,
            Value::Bool(b) => Value::Bool(*b),
            Value::Number(n) => Value::Number(n.clone()),
            Value::String(s) => Value::String(s.clone()),
            Value::Sequence(items) => {
                let mut copies: Vec<Value> = Vec::new();
                let mut i: usize = 0;
                while i < items.len()
                    invariant
                        *self == Value::Sequence(*items),
                        i <= items@.len(),
                        copies@.len() == i,
                        forall|k: int| 0 <= k < i ==> (#[trigger] copies@[k])@ == items@[k]@,
                    decreases items@.len() - i,
                {
                    proof {
                        vstd::std_specs::vec::axiom_vec_index_decreases(*items, i as int);
                        assert(decreases_to!(*self => self->Sequence_0));
                    }
                    copies.push(items[i].clone());
                    i += 1;
                }
                proof {
                    lemma_sequence_view(*items);
                    lemma_sequence_view(copies);
                    assert(copies.deep_view() =~= items.deep_view());
                }
                Value::Sequence(copies)
            },
            Value::Mapping(entries) => {
                let mut copies: Vec<(String, Value)> = Vec::new();
                let mut i: usize = 0;
                while i < entries.len()
                    invariant
                        *self == Value::Mapping(*entries),
                        i <= entries@.len(),
                        copies@.len() == i,
                        forall|k: int|
                            0 <= k < i ==> (#[trigger] copies@[k]).0@ == entries@[k].0@
                                && copies@[k].1@ == entries@[k].1@,
                    decreases entries@.len() - i,
                {
                    proof {
                        vstd::std_specs::vec::axiom_vec_index_decreases(*entries, i as int);
                        assert(decreases_to!(*self => self->Mapping_0));
                        assert(decreases_to!(entries@[i as int] => entries@[i as int].1));
                    }
                    copies.push((entries[i].0.clone(), entries[i].1.clone()));
                    i += 1;
                }
                proof {
                    lemma_mapping_view(*entries);
                    lemma_mapping_view(copies);
                    assert(copies.deep_view() =~= entries.deep_view());
                }
                Value::Mapping(copies)
            },
        }
    }
}

impl Number {
    /// Whether the two numbers are the same.
    pub fn same(&self, other: &Number) -> (r: bool)
        ensures
            r == same_number(self@, other@),
    {
        match (self, other) {
            (Number::PosInt(x), Number::PosInt(y)) => *x == *y,
            (Number::NegInt(x), Number::NegInt(y)) => *x == *y,
            (Number::Decimal(x), Number::Decimal(y)) => *x == *y,
            _ => false,
        }
    }

    /// Appends the text of this number to `out`.
    pub fn push_text(&self, out: &mut String)
        ensures
            final(out)@ == old(out)@ + number_text(self@),
    {
        match self {
            Number::PosInt(x) => push_decimal(out, *x),
            Number::NegInt(x) => {
                if *x < 0 {
                    let magnitude: u64 = ((-(*x + 1)) as u64) + 1;
                    out.append("-");
                    push_decimal(out, magnitude);
                    assert(old(out)@ + "-"@ + decimal((-*x) as nat) =~= old(out)@ + ("-"@ + decimal(
                        (-*x) as nat,
                    )));
                } else {
                    push_decimal(out, *x as u64);
                }
            },
            Number::Decimal(t) => out.append(t.as_str()),
        }
    }
}

impl Value {
    /// Structural equality with `other`.
    pub fn same(&self, other: &Value) -> (r: bool)
        ensures
            r == same_value(self@, other@),
        decreases *self,
    {
        match (self, other) {
            (Value::Null, Value::Null) => true,
            (Value::Bool(x), Value::Bool(y)) => *x == *y,
            (Value::Number(x), Value::Number(y)) => x.same(y),
            (Value::String(x), Value::String(y)) => *x == *y,
            (Value::Sequence(x), Value::Sequence(y)) => {
                proof {
                    lemma_sequence_view(*x);
                    lemma_sequence_view(*y);
                }
                if x.len() != y.len() {
                    return false;
                }
                let mut i: usize = 0;
                while i < x.len()
                    invariant
                        *self == Value::Sequence(*x),
                        *other == Value::Sequence(*y),
                        self@ == ValueView::Sequence(x.deep_view()),
                        other@ == ValueView::Sequence(y.deep_view()),
                        x@.len() == y@.len(),
                        i <= x@.len(),
                        forall|k: int|
                            0 <= k < i ==> same_value(
                                #[trigger] x.deep_view()[k],
                                y.deep_view()[k],
                            ),
                    decreases x@.len() - i,
                {
                    proof {
                        vstd::std_specs::vec::axiom_vec_index_decreases(*x, i as int);
                        assert(decreases_to!(*self => self->Sequence_0));
                        assert(x.deep_view()[i as int] == x@[i as int]@);
                        assert(y.deep_view()[i as int] == y@[i as int]@);
                    }
                    if !x[i].same(&y[i]) {
                        return false;
                    }
                    i += 1;
                }
                true
            },
            (Value::Mapping(x), Value::Mapping(y)) => {
                proof {
                    lemma_mapping_view(*x);
                    lemma_mapping_view(*y);
                }
                if x.len() != y.len() {
                    return false;
                }
                let ghost xs = x.deep_view();
                let ghost ys = y.deep_view();
                let mut i: usize = 0;
                while i < x.len()
                    invariant
                        *self == Value::Mapping(*x),
                        *other == Value::Mapping(*y),
                        self@ == ValueView::Mapping(xs),
                        other@ == ValueView::Mapping(ys),
                        xs == x.deep_view(),
                        ys == y.deep_view(),
                        x@.len() == y@.len(),
                        i <= x@.len(),
                        forall|k: int|
                            0 <= k < i ==> key_index(ys, (#[trigger] xs[k]).0) < ys.len()
                                && same_value(xs[k].1, ys[key_index(ys, xs[k].0)].1),
                    decreases x@.len() - i,
                {
                    assert(xs[i as int] == (x@[i as int].0@, x@[i as int].1@));
                    let at = find_key(y, &x[i].0);
                    if at >= y.len() {
                        return false;
                    }
                    proof {
                        vstd::std_specs::vec::axiom_vec_index_decreases(*x, i as int);
                        assert(decreases_to!(*self => self->Mapping_0));
                        assert(decreases_to!(x@[i as int] => x@[i as int].1));
                        assert(ys[at as int] == (y@[at as int].0@, y@[at as int].1@));
                    }
                    if !x[i].1.same(&y[at].1) {
                        return false;
                    }
                    i += 1;
                }
                true
            },
            _ => false,
        }
    }

    /// Whether `values` holds a value equal to this one.
    pub fn is_among(&self, values: &Vec<Value>) -> (r: bool)
        ensures
            r == holds_value(values.deep_view(), self@),
    {
        let ghost views = values.deep_view();
        let mut i: usize = 0;
        while i < values.len()
            invariant
                i <= values@.len(),
                views == values.deep_view(),
                forall|k: int| 0 <= k < i ==> !same_value(#[trigger] views[k], self@),
            decreases values@.len() - i,
        {
            assert(views[i as int] == values@[i as int]@);
            if values[i].same(self) {
                return true;
            }
            i += 1;
        }
        false
    }

    /// Appends the text that shows this value with its kind to `out`.
    pub fn push_debug(&self, out: &mut String)
        ensures
            final(out)@ == old(out)@ + debug_text(self@),
        decreases *self,
    {
        match self {
            Value::Null => out.append("Null"),
            Value::Bool(b) => {
                out.append("Bool(");
                if *b {
                    out.append("true");
                } else {
                    out.append("false");
                }
                out.append(")");
                assert(out@ =~= old(out)@ + debug_text(self@));
            },
            Value::Number(n) => {
                out.append("Number(");
                n.push_text(out);
                out.append(")");
                assert(out@ =~= old(out)@ + debug_text(self@));
            },
            Value::String(s) => {
                let q = quote(s.as_str());
                push_string_debug(out, q.as_str());
            },
            Value::Sequence(items) => {
                proof {
                    lemma_sequence_view(*items);
                }
                out.append("Sequence ");
                push_debug_list(out, items);
                assert(out@ =~= old(out)@ + debug_text(self@));
            },
            Value::Mapping(entries) => {
                proof {
                    lemma_mapping_view(*entries);
                }
                out.append("Mapping {");
                let ghost start = out@;
                let ghost views = entries.deep_view();
                let mut i: usize = 0;
                while i < entries.len()
                    invariant
                        *self == Value::Mapping(*entries),
                        views == entries.deep_view(),
                        i <= entries@.len(),
                        out@ == start + debug_entries(views, i as nat),
                    decreases entries@.len() - i,
                {
                    if i > 0 {
                        out.append(", ");
                    }
                    let q = quote(entries[i].0.as_str());
                    let mut shown = String::new();
                    proof {
                        vstd::std_specs::vec::axiom_vec_index_decreases(*entries, i as int);
                        assert(decreases_to!(*self => self->Mapping_0));
                        assert(decreases_to!(entries@[i as int] => entries@[i as int].1));
                        assert(views[i as int] == (entries@[i as int].0@, entries@[i as int].1@));
                    }
                    entries[i].1.push_debug(&mut shown);
                    assert(shown@ =~= debug_text(views[i as int].1));
                    push_entry_debug(out, q.as_str(), shown.as_str());
                    assert(out@ =~= start + debug_entries(views, (i + 1) as nat));
                    i += 1;
                }
                out.append("}");
                assert(out@ =~= old(out)@ + debug_text(self@));
            },
        }
    }
}

/// Appends the text that shows a string value, given its quoted form.
pub fn push_string_debug(out: &mut String, quoted_text: &str)
    ensures
        final(out)@ == old(out)@ + string_debug_text(quoted_text@),
{
    out.append("String(");
    out.append(quoted_text);
    out.append(")");
    assert(out@ =~= old(out)@ + string_debug_text(quoted_text@));
}

/// Appends one entry of a mapping, given its quoted name and shown value.
pub fn push_entry_debug(out: &mut String, quoted_name: &str, shown: &str)
    ensures
        final(out)@ == old(out)@ + entry_debug_text(quoted_name@, shown@),
{
    out.append(quoted_name);
    out.append(": ");
    out.append(shown);
    assert(out@ =~= old(out)@ + entry_debug_text(quoted_name@, shown@));
}

/// Appends the values shown as a list between square brackets to `out`.
pub fn push_debug_list(out: &mut String, items: &Vec<Value>)
    ensures
        final(out)@ == old(out)@ + debug_list(items.deep_view()),
    decreases *items,
{
    out.append("[");
    let ghost start = out@;
    let ghost views = items.deep_view();
    let mut i: usize = 0;
    while i < items.len()
        invariant
            i <= items@.len(),
            views == items.deep_view(),
            out@ == start + debug_items(views, i as nat),
        decreases items@.len() - i,
    {
        if i > 0 {
            out.append(", ");
        }
        assert(views[i as int] == items@[i as int]@);
        items[i].push_debug(out);
        assert(out@ =~= start + debug_items(views, (i + 1) as nat));
        i += 1;
    }
    out.append("]");
    assert(out@ =~= old(out)@ + debug_list(views));
}

} // verus!
