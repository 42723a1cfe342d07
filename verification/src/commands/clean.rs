//! Cleaning a project: whether there is one, and the ignore file without
//! the line that names the store.

use crate::error::CanonError;
use crate::text::{
    chars_of, find_char_from, first_index, join, joined, lemma_first_index, text_of,
};
use vstd::prelude::*;
use vstd::string::*;

verus! {

/// A line without the carriage return that may end it.
pub open spec fn without_return(line: Seq<char>) -> Seq<char> {
    if line.len() > 0 && line.last() == '\r' {
        line.drop_last()
    } else {
        line
    }
}

/// The lines of a text. A line ends with a line break, which may follow
/// a carriage return; neither belongs to the line. What stands behind the
/// last line break is a line as it stands, unless it is empty.
pub open spec fn lines_of(s: Seq<char>) -> Seq<Seq<char>>
    decreases s.len(),
{
    if s.len() == 0 {
        Seq::empty()
    } else if 0 <= first_index(s, '\n') < s.len() {
        seq![without_return(s.take(first_index(s, '\n')))] + lines_of(
            s.skip(first_index(s, '\n') + 1),
        )
    } else {
        seq![s]
    }
}

/// The lines but those that are `line`.
pub open spec fn without_line(lines: Seq<Seq<char>>, line: Seq<char>) -> Seq<Seq<char>>
    decreases lines.len(),
{
    if lines.len() == 0 {
        Seq::empty()
    } else {
        without_line(lines.drop_last(), line) + if lines.last() == line {
            Seq::empty()
        } else {
            seq![lines.last()]
        }
    }
}

/// The ignore file without the lines that name the store, its lines
/// joined by line breaks.
pub open spec fn cleaned_ignore_file(content: Seq<char>) -> Seq<char> {
    joined(without_line(lines_of(content), ".canon/"@), "\n"@)
}

/// Whether one of the lines is `line`.
pub open spec fn has_line(lines: Seq<Seq<char>>, line: Seq<char>) -> bool {
    exists|i: int| 0 <= i < lines.len() && lines[i] == line
}

/// What is to be written as the ignore file when the store is removed:
/// the file without the lines that name the store, where it has such a
/// line; nothing where it has none.
pub open spec fn ignore_file_after_purge(content: Seq<char>) -> Option<Seq<char>> {
    if has_line(lines_of(content), ".canon/"@) {
        Some(cleaned_ignore_file(content))
    } else {
        None
    }
}

/// Dropping a line leaves fewer lines exactly where one of them is that
/// line, and never more.
pub proof fn lemma_without_line_len(lines: Seq<Seq<char>>, line: Seq<char>)
    ensures
        without_line(lines, line).len() <= lines.len(),
        without_line(lines, line).len() == lines.len() <==> !has_line(lines, line),
    decreases lines.len(),
{
    if lines.len() > 0 {
        let head = lines.drop_last();
        lemma_without_line_len(head, line);
        if has_line(head, line) {
            let i = choose|i: int| 0 <= i < head.len() && head[i] == line;
            assert(lines[i] == line);
        }
        if has_line(lines, line) && lines.last() != line {
            let i = choose|i: int| 0 <= i < lines.len() && lines[i] == line;
            assert(head[i] == line);
        }
        if lines.last() == line {
            assert(lines[lines.len() - 1] == line);
        }
    }
}

/// The lines of a text.
pub fn lines(s: &str) -> (out: Vec<String>)
    ensures
        out.deep_view() == lines_of(s@),
{
    let chars = chars_of(s);
    let mut out: Vec<String> = Vec::new();
    let mut start: usize = 0;
    assert(chars@.skip(0) =~= chars@);
    assert(out.deep_view() =~= Seq::empty());
    assert(Seq::<Seq<char>>::empty() + lines_of(s@) =~= lines_of(s@));
    while start < chars.len()
        invariant
            start <= chars@.len(),
            chars@ == s@,
            out.deep_view() + lines_of(chars@.skip(start as int)) == lines_of(s@),
        decreases chars@.len() - start,
    {
        let ghost rest = chars@.skip(start as int);
        let ghost before = out.deep_view();
        let end = find_char_from(&chars, '\n', start);
        proof {
            lemma_first_index(rest, '\n');
            assert(rest.take(end - start) =~= chars@.subrange(start as int, end as int));
        }
        if end < chars.len() {
            let stop: usize = if end > start && chars[end - 1] == '\r' {
                (end - 1) as usize
            } else {
                end
            };
            let line = text_of(&chars, start, stop);
            assert(line@ =~= without_return(rest.take(end - start)));
            out.push(line);
            assert(rest.skip(end - start + 1) =~= chars@.skip(end + 1));
            assert(out.deep_view() =~= before + seq![line@]);
            assert(out.deep_view() + lines_of(chars@.skip(end + 1)) =~= before + (seq![line@]
                + lines_of(rest.skip(end - start + 1))));
            start = end + 1;
        } else {
            let line = text_of(&chars, start, end);
            assert(line@ =~= rest);
            out.push(line);
            assert(out.deep_view() =~= before + seq![line@]);
            assert(chars@.skip(end as int) =~= Seq::<char>::empty());
            assert(out.deep_view() + lines_of(chars@.skip(end as int)) =~= before + seq![rest]);
            start = end;
        }
    }
    assert(chars@.skip(chars@.len() as int) =~= Seq::<char>::empty());
    assert(out.deep_view() + Seq::<Seq<char>>::empty() =~= out.deep_view());
    out
}

/// The lines but those that are `line`.
pub fn drop_line(lines: &Vec<String>, line: &str) -> (kept: Vec<String>)
    ensures
        kept.deep_view() == without_line(lines.deep_view(), line@),
{
    let dropped = String::from_str(line);
    let ghost all = lines.deep_view();
    let mut kept: Vec<String> = Vec::new();
    let mut i: usize = 0;
    assert(kept.deep_view() =~= Seq::empty());
    assert(all.take(0) =~= Seq::<Seq<char>>::empty());
    while i < lines.len()
        invariant
            i <= lines@.len(),
            all == lines.deep_view(),
            dropped@ == line@,
            kept.deep_view() == without_line(all.take(i as int), line@),
        decreases lines@.len() - i,
    {
        let ghost before = kept.deep_view();
        assert(all.take(i + 1).drop_last() =~= all.take(i as int));
        assert(all.take(i + 1).last() == lines@[i as int]@);
        if lines[i] == dropped {
            assert(before + Seq::<Seq<char>>::empty() =~= before);
        } else {
            kept.push(lines[i].clone());
            assert(kept.deep_view() =~= before + seq![lines@[i as int]@]);
        }
        i += 1;
    }
    assert(all.take(all.len() as int) =~= all);
    kept
}

/// What is to be written as the ignore file when the store is removed;
/// `None` where nothing is to be written.
pub fn strip_gitignore_entry(content: &str) -> (to_write: Option<String>)
    ensures
        to_write.deep_view() == ignore_file_after_purge(content@),
{
    let all = lines(content);
    let kept = drop_line(&all, ".canon/");
    proof {
        lemma_without_line_len(all.deep_view(), ".canon/"@);
    }
    if kept.len() != all.len() {
        Some(join(&kept, "\n"))
    } else {
        None
    }
}

/// Whether there is a project to clean: a document or a store.
pub fn check_project(document_exists: bool, store_exists: bool) -> (r: Result<(), CanonError>)
    ensures
        r is Err <==> !document_exists && !store_exists,
        r matches Err(e) ==> e matches CanonError::Command { message } && message@
            == "No Canon project found in current directory"@,
{
    if !document_exists && !store_exists {
        Err(
            CanonError::Command {
                message: String::from_str("No Canon project found in current directory"),
            },
        )
    } else {
        Ok(())
    }
}

} // verus!
