use vstd::prelude::*;
use vstd::std_specs::iter::IteratorSpec;
use vstd::string::StringExecFns;
use crate::error::AppError;

verus! {

/// A file entry as the contracts see it: its path as found, and its
/// canonical absolute path.
pub ghost struct EntryView {
    pub relative: Seq<char>,
    pub absolute: Seq<char>,
}

/// A file that was selected, with the path it was found under and the
/// canonical path that identifies it.
pub struct FileEntry {
    pub relative_path: String,
    pub absolute_path: String,
}

impl View for FileEntry {
    type V = EntryView;

    open spec fn view(&self) -> EntryView {
        EntryView { relative: self.relative_path@, absolute: self.absolute_path@ }
    }
}

impl FileEntry {
    pub fn new(relative_path: String, absolute_path: String) -> (r: FileEntry)
        ensures
            r.relative_path@ == relative_path@,
            r.absolute_path@ == absolute_path@,
    {
        FileEntry { relative_path, absolute_path }
    }

    pub fn copy(&self) -> (r: FileEntry)
        ensures
            r@ == self@,
    {
        FileEntry {
            relative_path: self.relative_path.clone(),
            absolute_path: self.absolute_path.clone(),
        }
    }
}

/// The views of a sequence of entries.
pub open spec fn views(s: Seq<FileEntry>) -> Seq<EntryView> {
    s.map_values(|e: FileEntry| e@)
}

/// Some entry of `s` has the canonical path `a`.
pub open spec fn has_absolute(s: Seq<EntryView>, a: Seq<char>) -> bool {
    exists|i: int| 0 <= i < s.len() && #[trigger] s[i].absolute == a
}

/// No two entries of `s` share a canonical path.
pub open spec fn unique_absolute(s: Seq<EntryView>) -> bool {
    forall|i: int, j: int|
        0 <= i < s.len() && 0 <= j < s.len() && i != j ==> #[trigger] s[i].absolute
            != #[trigger] s[j].absolute
}

/// `existing` extended by the candidates, in their order, each one left out
/// whose canonical path is already present at the time it comes.
pub open spec fn merged(existing: Seq<EntryView>, candidates: Seq<EntryView>) -> Seq<EntryView>
    decreases candidates.len(),
{
    if candidates.len() == 0 {
        existing
    } else {
        let before = merged(existing, candidates.drop_last());
        if has_absolute(before, candidates.last().absolute) {
            before
        } else {
            before.push(candidates.last())
        }
    }
}

/// Every character of `s` is white space.
pub open spec fn all_white(s: Seq<char>) -> bool {
    forall|i: int| 0 <= i < s.len() ==> is_white(#[trigger] s[i])
}

/// Whether a character has the Unicode White_Space property.
pub open spec fn is_white(c: char) -> bool {
    ('\u{9}' <= c && c <= '\u{d}') || c == ' ' || c == '\u{85}' || c == '\u{a0}' || c
        == '\u{1680}' || ('\u{2000}' <= c && c <= '\u{200a}') || c == '\u{2028}' || c
        == '\u{2029}' || c == '\u{202f}' || c == '\u{205f}' || c == '\u{3000}'
}

/// Relies on `char::is_whitespace`: true exactly for the characters with the
/// Unicode White_Space property, the set that `str::trim` removes.
#[verifier::external_body]
fn char_is_whitespace(c: char) -> (r: bool)
    ensures
        r == is_white(c),
{
    c.is_whitespace()
}

broadcast use {vstd::string::axiom_spec_iter, vstd::string::next_postcondition};

/// Whether a text is empty or holds only white space.
pub fn is_blank(text: &str) -> (r: bool)
    ensures
        r == all_white(text@),
{
    let mut it = text.chars();
    let ghost all = text@;
    let ghost mut i: int = 0;
    loop
        invariant
            0 <= i <= all.len(),
            all == text@,
            it.remaining() == all.subrange(i, all.len() as int),
            forall|k: int| 0 <= k < i ==> is_white(#[trigger] all[k]),
        decreases all.len() - i,
    {
        match it.next() {
            None => {
                assert(i == all.len());
                assert(all_white(text@));
                return true;
            },
            Some(c) => {
                assert(all[i] == c);
                if !char_is_whitespace(c) {
                    assert(!is_white(text@[i]));
                    return false;
                }
                proof {
                    i = i + 1;
                }
            },
        }
    }
}

/// One line of a listing: the path as found, and with `long` also the
/// canonical path in parentheses.
pub open spec fn list_line(e: EntryView, long: bool) -> Seq<char> {
    if long {
        "- "@ + e.relative + " ("@ + e.absolute + ")"@
    } else {
        "- "@ + e.relative
    }
}

/// The lines that list a state: a note when it is empty, else a heading and
/// one line per entry in order.
pub open spec fn listing(s: Seq<EntryView>, long: bool) -> Seq<Seq<char>> {
    if s.len() == 0 {
        seq!["No files have been added yet."@]
    } else {
        seq!["Files in state:"@] + s.map_values(|e: EntryView| list_line(e, long))
    }
}

/// The block that prints one file: its path as found in an attribute, its
/// contents as the body.
pub open spec fn file_block_text(relative: Seq<char>, contents: Seq<char>) -> Seq<char> {
    "<file path=\""@ + relative + "\">\n"@ + contents + "\n</file>"@
}

/// The message given when there is nothing to print.
pub open spec fn nothing_to_print() -> Seq<char> {
    "No files to print!"@
}

/// The block that prints one file, given what the file holds.
pub fn file_block(entry: &FileEntry, contents: &str) -> (r: String)
    ensures
        r@ == file_block_text(entry.relative_path@, contents@),
{
    let mut r = String::from_str("<file path=\"");
    r.append(entry.relative_path.as_str());
    r.append("\">\n");
    r.append(contents);
    r.append("\n</file>");
    r
}

/// The tracked entries, in the order they were added, and the location of
/// the document they are kept in.
pub struct State {
    files: Vec<FileEntry>,
    path: String,
}

impl View for State {
    type V = Seq<EntryView>;

    closed spec fn view(&self) -> Seq<EntryView> {
        views(self.files@)
    }
}

impl State {
    /// No two entries share a canonical path.
    pub open spec fn wf(&self) -> bool {
        unique_absolute(self@)
    }

    pub closed spec fn spec_path(&self) -> Seq<char> {
        self.path@
    }

    /// The state to start from, given the backing document's text (`None`
    /// where no document exists). A missing, empty or white-space-only
    /// document gives the empty state; any other text has to be parsed, and
    /// then `None` is returned.
    pub fn new(path: String, contents: Option<&str>) -> (r: Option<State>)
        ensures
            r is Some <==> (contents is None || all_white(contents->0@)),
            r matches Some(st) ==> st@ == Seq::<EntryView>::empty() && st.wf() && st.spec_path()
                == path@,
    {
        let empty = match contents {
            None => true,
            Some(text) => is_blank(text),
        };
        if empty {
            let st = State { files: Vec::new(), path };
            assert(st@ =~= Seq::<EntryView>::empty());
            Some(st)
        } else {
            None
        }
    }

    /// The state that a parsed document describes. An entry whose canonical
    /// path an earlier entry already has is left out.
    pub fn from_entries(path: String, entries: &Vec<FileEntry>) -> (r: State)
        ensures
            r@ == merged(Seq::empty(), views(entries@)),
            r.wf(),
            r.spec_path() == path@,
    {
        let mut st = State { files: Vec::new(), path };
        assert(st@ =~= Seq::<EntryView>::empty());
        st.add_entries(entries);
        st
    }

    /// The location of the backing document.
    pub fn path(&self) -> (r: &String)
        ensures
            r@ == self.spec_path(),
    {
        &self.path
    }

    /// The entries, in order.
    pub fn files(&self) -> (r: &Vec<FileEntry>)
        ensures
            views(r@) == self@,
    {
        &self.files
    }

    /// Whether no entry is tracked.
    pub fn is_empty(&self) -> (r: bool)
        ensures
            r == (self@.len() == 0),
    {
        self.files.len() == 0
    }

    /// Whether an entry has the canonical path `absolute`.
    pub fn contains_absolute(&self, absolute: &String) -> (r: bool)
        ensures
            r == has_absolute(self@, absolute@),
    {
        let mut i: usize = 0;
        while i < self.files.len()
            invariant
                0 <= i <= self.files@.len(),
                forall|k: int| 0 <= k < i ==> self@[k].absolute != absolute@,
            decreases self.files@.len() - i,
        {
            if self.files[i].absolute_path == *absolute {
                assert(self@[i as int].absolute == absolute@);
                return true;
            }
            i = i + 1;
        }
        false
    }

    /// Appends, in order, each candidate whose canonical path no entry has
    /// yet, and returns how many were appended.
    pub fn add_entries(&mut self, candidates: &Vec<FileEntry>) -> (n: usize)
        requires
            old(self).wf(),
        ensures
            final(self)@ == merged(old(self)@, views(candidates@)),
            final(self).wf(),
            final(self).spec_path() == old(self).spec_path(),
            n == final(self)@.len() - old(self)@.len(),
            n == 0 <==> final(self)@ == old(self)@,
    {
        let ghost start = self@;
        let mut i: usize = 0;
        let len0 = self.files.len();
        while i < candidates.len()
            invariant
                0 <= i <= candidates@.len(),
                self@ == merged(start, views(candidates@).subrange(0, i as int)),
                self.wf(),
                self.path@ == old(self).path@,
                start == old(self)@,
                len0 == start.len(),
                self@.len() >= start.len(),
            decreases candidates@.len() - i,
        {
            let ghost before = self@;
            let c = &candidates[i];
            proof {
                let pre = views(candidates@).subrange(0, i as int + 1);
                assert(pre.drop_last() =~= views(candidates@).subrange(0, i as int));
                assert(pre.last() == c@);
            }
            if !self.contains_absolute(&c.absolute_path) {
                let e = c.copy();
                self.files.push(e);
                assert(self@ =~= before.push(c@));
                proof {
                    assert forall|a: int, b: int|
                        0 <= a < self@.len() && 0 <= b < self@.len() && a != b implies
                        #[trigger] self@[a].absolute != #[trigger] self@[b].absolute by {
                        if a == before.len() {
                            assert(before[b].absolute == self@[b].absolute);
                        } else if b == before.len() {
                            assert(before[a].absolute == self@[a].absolute);
                        }
                    }
                }
            }
            i = i + 1;
        }
        assert(views(candidates@).subrange(0, i as int) =~= views(candidates@));
        proof {
            crate::laws::lemma_merged_covers(start, views(candidates@));
            if self@.len() == start.len() {
                assert(self@ =~= start);
            }
        }
        self.files.len() - len0
    }

    /// The lines that list the entries.
    pub fn list_lines(&self, long: bool) -> (r: Vec<String>)
        ensures
            r@.map_values(|l: String| l@) == listing(self@, long),
    {
        let mut lines: Vec<String> = Vec::new();
        if self.files.len() == 0 {
            lines.push(String::from_str("No files have been added yet."));
            assert(lines@.map_values(|l: String| l@) =~= listing(self@, long));
            return lines;
        }
        lines.push(String::from_str("Files in state:"));
        let mut i: usize = 0;
        while i < self.files.len()
            invariant
                0 <= i <= self.files@.len(),
                self.files@.len() > 0,
                lines@.map_values(|l: String| l@) == seq!["Files in state:"@] + self@.subrange(
                    0,
                    i as int,
                ).map_values(|e: EntryView| list_line(e, long)),
            decreases self.files@.len() - i,
        {
            let e = &self.files[i];
            let mut line = String::from_str("- ");
            line.append(e.relative_path.as_str());
            if long {
                line.append(" (");
                line.append(e.absolute_path.as_str());
                line.append(")");
            }
            assert(self@[i as int] == e@);
            assert(line@ == list_line(e@, long));
            let ghost prev = lines@.map_values(|l: String| l@);
            lines.push(line);
            assert(lines@.map_values(|l: String| l@) =~= prev.push(line@));
            assert(self@.subrange(0, i as int + 1).map_values(|e: EntryView| list_line(e, long))
                =~= self@.subrange(0, i as int).map_values(|e: EntryView| list_line(e, long)).push(
                list_line(e@, long),
            ));
            i = i + 1;
        }
        assert(self@.subrange(0, i as int) =~= self@);
        lines
    }

    /// Succeeds when there is something to print; else fails with a message
    /// for the user, before any file is read.
    pub fn check_printable(&self) -> (r: Result<(), AppError>)
        ensures
            r is Ok <==> self@.len() > 0,
            r matches Err(e) ==> e matches AppError::CustomError(m) && m@ == nothing_to_print(),
    {
        if self.files.len() == 0 {
            Err(AppError::CustomError(String::from_str("No files to print!")))
        } else {
            Ok(())
        }
    }

    /// Forgets every entry; the location is kept.
    pub fn clear(&mut self)
        ensures
            final(self)@ == Seq::<EntryView>::empty(),
            final(self).wf(),
            final(self).spec_path() == old(self).spec_path(),
    {
        self.files.clear();
        assert(self@ =~= Seq::<EntryView>::empty());
    }
}

} // verus!
