use vstd::prelude::*;
use crate::change::{letter_of, status_of_word, ChangeStatus};
use crate::scan::same_chars;
use crate::text::chars_of;

verus! {

/// An error met while talking to the Bitbucket API.
pub struct CustomError {
    pub description: String,
}

impl CustomError {
    pub fn new(description: String) -> (r: CustomError)
        ensures
            r.description@ == description@,
    {
        CustomError { description }
    }

    /// The message that describes the error.
    pub fn message(&self) -> (r: String)
        ensures
            r@ == "Custom Error: "@ + self.description@,
    {
        let mut r = "Custom Error: ".to_owned();
        r.append(self.description.as_str());
        r
    }
}

/// One entry of a remote diff summary: its status word, and the paths of the file
/// before and after the change, where the summary gives a file for them.
pub struct DiffStatEntry {
    pub status: Option<String>,
    pub old_path: Option<String>,
    pub new_path: Option<String>,
}

/// What separates the fields of a diff line made from a summary entry.
pub open spec fn field_gap() -> Seq<char> {
    "       "@
}

/// The one-letter code of an entry's status.
pub open spec fn entry_code(e: DiffStatEntry) -> char {
    match e.status {
        Some(s) => letter_of(status_of_word(s@)),
        None => letter_of(ChangeStatus::Unknown),
    }
}

/// The diff line of an entry: its code and the path after the change, or the path
/// before it when there is no file after it. A renamed entry names
/// both paths, the old one first, as a name-status diff does. An entry with no file gives no line.
pub open spec fn entry_line(e: DiffStatEntry) -> Option<Seq<char>> {
    let code = seq![entry_code(e)];
    match (e.old_path, e.new_path) {
        (Some(o), Some(n)) => if e.status is Some && e.status->0@ == "renamed"@ {
            Some(code + field_gap() + o@ + field_gap() + n@)
        } else {
            Some(code + field_gap() + n@)
        },
        (Some(o), None) => Some(code + field_gap() + o@),
        (None, Some(n)) => Some(code + field_gap() + n@),
        (None, None) => None,
    }
}

/// The diff lines of the entries, in order.
pub open spec fn entry_lines(es: Seq<DiffStatEntry>) -> Seq<Seq<char>>
    decreases es.len(),
{
    if es.len() == 0 {
        Seq::empty()
    } else {
        match entry_line(es.last()) {
            Some(l) => entry_lines(es.drop_last()).push(l),
            None => entry_lines(es.drop_last()),
        }
    }
}

fn entry_code_exec(e: &DiffStatEntry) -> (r: char)
    ensures
        r == entry_code(*e),
{
    match &e.status {
        Some(s) => ChangeStatus::from_word(s.as_str()).letter(),
        None => ChangeStatus::Unknown.letter(),
    }
}

/// The diff line of one entry.
pub fn diff_line(e: &DiffStatEntry) -> (r: Option<String>)
    ensures
        match entry_line(*e) {
            Some(l) => r is Some && r->0@ == l,
            None => r is None,
        },
{
    let mut line = String::new();
    line.push(entry_code_exec(e));
    assert(line@ =~= seq![entry_code(*e)]);
    let renamed = match &e.status {
        Some(s) => same_chars(&chars_of(s.as_str()), &chars_of("renamed")),
        None => false,
    };
    match (&e.old_path, &e.new_path) {
        (Some(o), Some(n)) => {
            if renamed {
                line.append("       ");
                line.append(o.as_str());
            }
            line.append("       ");
            line.append(n.as_str());
            Some(line)
        },
        (Some(o), None) => {
            line.append("       ");
            line.append(o.as_str());
            Some(line)
        },
        (None, Some(n)) => {
            line.append("       ");
            line.append(n.as_str());
            Some(line)
        },
        (None, None) => None,
    }
}

/// The diff lines of the entries of a remote diff summary, in the shape of a
/// name-status diff.
pub fn get_git_diff_response(entries: &Vec<DiffStatEntry>) -> (r: Vec<String>)
    ensures
        r@.map_values(|s: String| s@) == entry_lines(entries@),
{
    let mut r: Vec<String> = Vec::new();
    let mut i: usize = 0;
    while i < entries.len()
        invariant
            i <= entries.len(),
            r@.map_values(|s: String| s@) == entry_lines(entries@.take(i as int)),
        decreases entries.len() - i,
    {
        let ghost before = r@;
        assert(entries@.take(i as int + 1).drop_last() =~= entries@.take(i as int));
        match diff_line(&entries[i]) {
            Some(l) => {
                r.push(l);
                assert(r@.map_values(|s: String| s@) =~= before.map_values(|s: String| s@).push(r@.last()@));
            },
            None => {},
        }
        i += 1;
    }
    assert(entries@.take(entries.len() as int) =~= entries@);
    r
}

/// The base of the Bitbucket API's repository addresses.
pub open spec fn api_url() -> Seq<char> {
    "https://api.bitbucket.org/2.0/repositories"@
}

/// The address of the commits of `branch`.
pub fn commits_url(workspace: &str, repository: &str, branch: &str) -> (r: String)
    ensures
        r@ == api_url() + "/"@ + workspace@ + "/"@ + repository@ + "/commits/"@ + branch@,
{
    let mut r = "https://api.bitbucket.org/2.0/repositories".to_owned();
    r.append("/");
    r.append(workspace);
    r.append("/");
    r.append(repository);
    r.append("/commits/");
    r.append(branch);
    r
}

/// The address of the diff summary between two commits.
pub fn diffstat_url(workspace: &str, repository: &str, from_commit: &str, to_commit: &str) -> (r: String)
    ensures
        r@ == api_url() + "/"@ + workspace@ + "/"@ + repository@ + "/diffstat/"@ + from_commit@ + ".."@ + to_commit@,
{
    let mut r = "https://api.bitbucket.org/2.0/repositories".to_owned();
    r.append("/");
    r.append(workspace);
    r.append("/");
    r.append(repository);
    r.append("/diffstat/");
    r.append(from_commit);
    r.append("..");
    r.append(to_commit);
    r
}

/// `p` occurs in `s`.
pub open spec fn contains_text(s: Seq<char>, p: Seq<char>) -> bool {
    exists|i: int| 0 <= i && i + p.len() <= s.len() && #[trigger] s.subrange(i, i + p.len()) == p
}

/// Whether `p` occurs in `s` at index `i`.
fn occurs_at(s: &Vec<char>, p: &Vec<char>, i: usize) -> (r: bool)
    requires
        i + p.len() <= s.len(),
    ensures
        r == (s@.subrange(i as int, i + p.len()) == p@),
{
    let mut j: usize = 0;
    while j < p.len()
        invariant
            j <= p.len(),
            i + p.len() <= s.len(),
            s@.subrange(i as int, i + j) == p@.subrange(0, j as int),
        decreases p.len() - j,
    {
        if s[i + j] != p[j] {
            assert(s@.subrange(i as int, i + p.len())[j as int] != p@[j as int]);
            return false;
        }
        assert(s@.subrange(i as int, i + j + 1) =~= p@.subrange(0, j as int + 1));
        j += 1;
    }
    assert(p@.subrange(0, j as int) =~= p@);
    true
}

/// Whether `p` occurs in `s`.
pub fn contains(s: &str, p: &str) -> (r: bool)
    ensures
        r == contains_text(s@, p@),
{
    let sc = chars_of(s);
    let pc = chars_of(p);
    if pc.len() > sc.len() {
        return false;
    }
    let last = sc.len() - pc.len();
    let mut i: usize = 0;
    loop
        invariant
            i <= last,
            last == sc.len() - pc.len(),
            sc@ == s@,
            pc@ == p@,
            forall|k: int| 0 <= k < i ==> #[trigger] s@.subrange(k, k + p@.len()) != p@,
        decreases last - i,
    {
        if occurs_at(&sc, &pc, i) {
            return true;
        }
        if i == last {
            return false;
        }
        i += 1;
    }
}

/// A commit lookup failed when it gave nothing, or a message naming `HEAD` or saying
/// `not found`.
pub open spec fn commit_lookup_failed(out: Seq<char>) -> bool {
    out.len() == 0 || contains_text(out, "HEAD"@) || contains_text(out, "not found"@)
}

pub fn latest_commit_has_error(latest_commit_compare: &str, latest_commit_feature: &str) -> (r: bool)
    ensures
        r == (commit_lookup_failed(latest_commit_compare@) || commit_lookup_failed(latest_commit_feature@)),
{
    chars_of(latest_commit_compare).len() == 0 || chars_of(latest_commit_feature).len() == 0
        || contains(latest_commit_compare, "HEAD") || contains(latest_commit_feature, "HEAD")
        || contains(latest_commit_compare, "not found") || contains(latest_commit_feature, "not found")
}

/// A text without its line feeds and spaces.
pub open spec fn without_breaks(s: Seq<char>) -> Seq<char>
    decreases s.len(),
{
    if s.len() == 0 {
        s
    } else if s.last() == '\n' || s.last() == ' ' {
        without_breaks(s.drop_last())
    } else {
        without_breaks(s.drop_last()).push(s.last())
    }
}

/// A commit id as git printed it, without the line feeds and spaces around it.
pub fn clean_commit_id(raw: &str) -> (r: String)
    ensures
        r@ == without_breaks(raw@),
{
    let s = chars_of(raw);
    let mut r = String::new();
    let mut i: usize = 0;
    while i < s.len()
        invariant
            i <= s.len(),
            r@ == without_breaks(s@.take(i as int)),
        decreases s.len() - i,
    {
        assert(s@.take(i as int + 1).drop_last() =~= s@.take(i as int));
        if s[i] != '\n' && s[i] != ' ' {
            r.push(s[i]);
        }
        i += 1;
    }
    assert(s@.take(s.len() as int) =~= s@);
    r
}

} // verus!
