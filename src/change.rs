use vstd::prelude::*;
use crate::scan::{find, find_class, same_chars, slice, CharClass};
use crate::text::{chars_of, string_of};

verus! {

/// The kind of a change to a file.
#[derive(Clone, Copy, Debug, PartialEq, Eq, Structural)]
pub enum ChangeStatus {
    Added,
    Deleted,
    Modified,
    Renamed,
    MergeConflict,
    RemoteDeleted,
    Unknown,
}

/// The status that a change code stands for, by its first letter.
pub open spec fn status_of_code(code: Seq<char>) -> ChangeStatus {
    if code.len() == 0 {
        ChangeStatus::Unknown
    } else if code[0] == 'A' {
        ChangeStatus::Added
    } else if code[0] == 'D' {
        ChangeStatus::Deleted
    } else if code[0] == 'M' {
        ChangeStatus::Modified
    } else if code[0] == 'R' {
        ChangeStatus::Renamed
    } else {
        ChangeStatus::Unknown
    }
}

/// The status that a word of a remote diff summary stands for.
pub open spec fn status_of_word(word: Seq<char>) -> ChangeStatus {
    if word == "added"@ {
        ChangeStatus::Added
    } else if word == "removed"@ {
        ChangeStatus::Deleted
    } else if word == "modified"@ {
        ChangeStatus::Modified
    } else if word == "renamed"@ {
        ChangeStatus::Renamed
    } else if word == "merge conflict"@ {
        ChangeStatus::MergeConflict
    } else if word == "remote deleted"@ {
        ChangeStatus::RemoteDeleted
    } else {
        ChangeStatus::Unknown
    }
}

/// The one-letter code of a status.
pub open spec fn letter_of(s: ChangeStatus) -> char {
    match s {
        ChangeStatus::Added => 'A',
        ChangeStatus::Deleted => 'D',
        ChangeStatus::Modified => 'M',
        ChangeStatus::Renamed => 'R',
        ChangeStatus::MergeConflict => 'M',
        ChangeStatus::RemoteDeleted => 'D',
        ChangeStatus::Unknown => '?',
    }
}

impl ChangeStatus {
    /// The status of a change code such as `M`, `D` or `R072`.
    pub fn from_code(code: &str) -> (r: ChangeStatus)
        ensures
            r == status_of_code(code@),
    {
        let c = chars_of(code);
        if c.len() == 0 {
            ChangeStatus::Unknown
        } else if c[0] == 'A' {
            ChangeStatus::Added
        } else if c[0] == 'D' {
            ChangeStatus::Deleted
        } else if c[0] == 'M' {
            ChangeStatus::Modified
        } else if c[0] == 'R' {
            ChangeStatus::Renamed
        } else {
            ChangeStatus::Unknown
        }
    }

    /// The status of a word of a remote diff summary, such as `added` or `removed`.
    pub fn from_word(word: &str) -> (r: ChangeStatus)
        ensures
            r == status_of_word(word@),
    {
        let w = chars_of(word);
        if same_chars(&w, &chars_of("added")) {
            ChangeStatus::Added
        } else if same_chars(&w, &chars_of("removed")) {
            ChangeStatus::Deleted
        } else if same_chars(&w, &chars_of("modified")) {
            ChangeStatus::Modified
        } else if same_chars(&w, &chars_of("renamed")) {
            ChangeStatus::Renamed
        } else if same_chars(&w, &chars_of("merge conflict")) {
            ChangeStatus::MergeConflict
        } else if same_chars(&w, &chars_of("remote deleted")) {
            ChangeStatus::RemoteDeleted
        } else {
            ChangeStatus::Unknown
        }
    }

    /// The one-letter code of this status: `A`, `D`, `M`, `R`, or `?` when unknown.
    pub fn letter(&self) -> (r: char)
        ensures
            r == letter_of(*self),
    {
        match self {
            ChangeStatus::Added => 'A',
            ChangeStatus::Deleted => 'D',
            ChangeStatus::Modified => 'M',
            ChangeStatus::Renamed => 'R',
            ChangeStatus::MergeConflict => 'M',
            ChangeStatus::RemoteDeleted => 'D',
            ChangeStatus::Unknown => '?',
        }
    }
}

/// One line of a name-status diff: its change code and the path it names.
pub struct ChangeRecord {
    pub change_code: String,
    pub path: String,
}

impl ChangeRecord {
    pub fn status(&self) -> (r: ChangeStatus)
        ensures
            r == status_of_code(self.change_code@),
    {
        ChangeStatus::from_code(self.change_code.as_str())
    }
}

/// The change code and the path of each record.
pub open spec fn record_views(records: Seq<ChangeRecord>) -> Seq<(Seq<char>, Seq<char>)> {
    records.map_values(|r: ChangeRecord| (r.change_code@, r.path@))
}

/// A line up to its first line break.
pub open spec fn line_body(line: Seq<char>) -> Seq<char> {
    line.subrange(0, find_class(line, 0, CharClass::LineEnd))
}

/// The change code: what precedes the first blank.
pub open spec fn change_code_of(line: Seq<char>) -> Seq<char> {
    let l = line_body(line);
    l.subrange(0, find_class(l, 0, CharClass::Blank))
}

/// A field gap at index `i`: a tab, as git writes between the paths of a rename, or
/// seven spaces, as a line made from a remote diff summary has.
pub open spec fn gap_at(l: Seq<char>, i: int) -> bool {
    l[i] == '\t' || (i + 7 <= l.len() && forall|m: int| 0 <= m < 7 ==> #[trigger] l[i + m] == ' ')
}

/// The first field gap at or after `i`, or the length of `l` when there is none.
pub open spec fn find_gap(l: Seq<char>, i: int) -> int
    decreases l.len() - i,
{
    if i < 0 || i >= l.len() {
        l.len() as int
    } else if gap_at(l, i) {
        i
    } else {
        find_gap(l, i + 1)
    }
}

/// The path: it starts after the blanks that follow the change code and runs to the
/// end of the line. A rename (code `R...`) names its old path, then its new one: its
/// path ends at the field gap before the new path.
pub open spec fn change_path_of(line: Seq<char>) -> Seq<char> {
    let l = line_body(line);
    let k = find_class(l, 0, CharClass::Blank);
    let st = find_class(l, k + 1, CharClass::NonBlank);
    if k >= l.len() {
        Seq::empty()
    } else if k > 0 && l[0] == 'R' {
        l.subrange(st, find_gap(l, st))
    } else {
        l.subrange(st, l.len() as int)
    }
}

/// Whether there is a field gap at index `i`.
fn gap_at_exec(l: &Vec<char>, i: usize) -> (r: bool)
    requires
        i < l.len(),
    ensures
        r == gap_at(l@, i as int),
{
    if l[i] == '\t' {
        return true;
    }
    if l.len() - i < 7 {
        return false;
    }
    let mut m: usize = 0;
    while m < 7
        invariant
            m <= 7,
            i + 7 <= l.len(),
            l@[i as int] != '\t',
            forall|j: int| 0 <= j < m ==> #[trigger] l@[i + j] == ' ',
        decreases 7 - m,
    {
        if l[i + m] != ' ' {
            assert(l@[i as int + m as int] != ' ');
            return false;
        }
        m += 1;
    }
    true
}

/// The first field gap at or after `i`, or `l.len()`.
fn find_gap_exec(l: &Vec<char>, i: usize) -> (r: usize)
    requires
        i <= l.len(),
    ensures
        r == find_gap(l@, i as int),
        i <= r <= l.len(),
{
    let mut j: usize = i;
    while j < l.len() && !gap_at_exec(l, j)
        invariant
            i <= j <= l.len(),
            find_gap(l@, i as int) == find_gap(l@, j as int),
        decreases l.len() - j,
    {
        j += 1;
    }
    j
}

/// Reads one line of a name-status diff, such as `M\tforce-app/main/default/classes/A.cls`.
/// A line that is not of this shape still gives a record, one that names no category.
pub fn parse_change_line(line: &str) -> (r: ChangeRecord)
    ensures
        r.change_code@ == change_code_of(line@),
        r.path@ == change_path_of(line@),
{
    let all = chars_of(line);
    let e = find(&all, 0, CharClass::LineEnd);
    let l = slice(&all, 0, e);
    let k = find(&l, 0, CharClass::Blank);
    let code = slice(&l, 0, k);
    if k >= l.len() {
        return ChangeRecord { change_code: string_of(&code), path: String::new() };
    }
    let st = find(&l, k + 1, CharClass::NonBlank);
    let end = if k > 0 && l[0] == 'R' {
        find_gap_exec(&l, st)
    } else {
        l.len()
    };
    ChangeRecord { change_code: string_of(&code), path: string_of(&slice(&l, st, end)) }
}

/// The lines of `s`: each piece that a line feed ends, without it. Text after the
/// last line feed is not a line.
pub open spec fn split_lines(s: Seq<char>) -> Seq<Seq<char>>
    decreases s.len() via split_lines_decreases
{
    let k = find_class(s, 0, CharClass::Newline);
    if k >= s.len() {
        Seq::empty()
    } else {
        seq![s.subrange(0, k)] + split_lines(s.subrange(k + 1, s.len() as int))
    }
}

#[via_fn]
proof fn split_lines_decreases(s: Seq<char>) {
    crate::scan::lemma_find_class(s, 0, CharClass::Newline);
}

/// Splits the text of a diff into its lines.
pub fn split_to_lines_vec(diffed_files_from_standard_out: &str) -> (r: Vec<String>)
    ensures
        r@.len() == split_lines(diffed_files_from_standard_out@).len(),
        forall|i: int| 0 <= i < r@.len() ==> r@[i]@ == split_lines(diffed_files_from_standard_out@)[i],
{
    let s = chars_of(diffed_files_from_standard_out);
    let mut r: Vec<String> = Vec::new();
    let mut i: usize = 0;
    assert(s@.subrange(0, s@.len() as int) =~= s@);
    while i < s.len()
        invariant
            i <= s.len(),
            r@.len() + split_lines(s@.subrange(i as int, s@.len() as int)).len() == split_lines(s@).len(),
            forall|m: int| 0 <= m < r@.len() ==> r@[m]@ == split_lines(s@)[m],
            forall|m: int| 0 <= m < split_lines(s@.subrange(i as int, s@.len() as int)).len()
                ==> split_lines(s@)[r@.len() + m] == split_lines(s@.subrange(i as int, s@.len() as int))[m],
        decreases s.len() - i,
    {
        let ghost rest = s@.subrange(i as int, s@.len() as int);
        let k = find(&s, i, CharClass::Newline);
        proof {
            crate::scan::lemma_find_class(s@, i as int, CharClass::Newline);
            crate::scan::lemma_find_class_at(rest, 0, k - i, CharClass::Newline);
        }
        if k >= s.len() {
            assert(split_lines(rest).len() == 0);
            i = s.len();
            assert(split_lines(s@.subrange(i as int, s@.len() as int)) =~= Seq::<Seq<char>>::empty());
        } else {
            let piece = slice(&s, i, k);
            proof {
                assert(rest.subrange(0, k - i) =~= piece@);
                assert(rest.subrange(k - i + 1, rest.len() as int) =~= s@.subrange(k + 1, s@.len() as int));
                assert(split_lines(rest) == seq![piece@] + split_lines(s@.subrange(k + 1, s@.len() as int)));
                assert(split_lines(rest)[0] == piece@);
            }
            r.push(string_of(&piece));
            i = k + 1;
            proof {
                let rest2 = s@.subrange(i as int, s@.len() as int);
                assert forall|m: int| 0 <= m < split_lines(rest2).len()
                    implies split_lines(s@)[r@.len() + m] == split_lines(rest2)[m] by {
                    assert(split_lines(rest)[m + 1] == split_lines(rest2)[m]);
                }
            }
        }
    }
    r
}

} // verus!
