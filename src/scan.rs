use vstd::prelude::*;

verus! {

/// The kinds of character that the path and line scanners look for.
#[derive(Clone, Copy, PartialEq, Eq, Structural)]
pub enum CharClass {
    /// A path separator, `/` or `\`.
    Separator,
    /// A dot, which starts a file extension.
    Dot,
    /// Either of the two above.
    SeparatorOrDot,
    /// A blank between the fields of a diff line: a space or a tab.
    Blank,
    /// Anything but a blank.
    NonBlank,
    /// The end of a line: `\n` or `\r`.
    LineEnd,
    /// A line feed.
    Newline,
    /// The sign `=` between a key and its value.
    Equals,
}

pub open spec fn is_separator(c: char) -> bool {
    c == '/' || c == '\\'
}

pub open spec fn is_blank(c: char) -> bool {
    c == ' ' || c == '\t'
}

pub open spec fn in_class(k: CharClass, c: char) -> bool {
    match k {
        CharClass::Separator => is_separator(c),
        CharClass::Dot => c == '.',
        CharClass::SeparatorOrDot => is_separator(c) || c == '.',
        CharClass::Blank => is_blank(c),
        CharClass::NonBlank => !is_blank(c),
        CharClass::LineEnd => c == '\n' || c == '\r',
        CharClass::Newline => c == '\n',
        CharClass::Equals => c == '=',
    }
}

/// The first index at or after `i` that holds a character of class `k`, or the
/// length of `s` when there is none.
pub open spec fn find_class(s: Seq<char>, i: int, k: CharClass) -> int
    decreases s.len() - i,
{
    if i < 0 || i >= s.len() {
        s.len() as int
    } else if in_class(k, s[i]) {
        i
    } else {
        find_class(s, i + 1, k)
    }
}

pub proof fn lemma_find_class(s: Seq<char>, i: int, k: CharClass)
    requires
        0 <= i <= s.len(),
    ensures
        i <= find_class(s, i, k) <= s.len(),
        find_class(s, i, k) < s.len() ==> in_class(k, s[find_class(s, i, k)]),
        forall|j: int| i <= j < find_class(s, i, k) ==> !in_class(k, #[trigger] s[j]),
    decreases s.len() - i,
{
    if i < s.len() && !in_class(k, s[i]) {
        lemma_find_class(s, i + 1, k);
    }
}

/// A scan that meets no character of the class before `j` and stops at `j`.
pub proof fn lemma_find_class_at(s: Seq<char>, i: int, j: int, k: CharClass)
    requires
        0 <= i <= j <= s.len(),
        forall|m: int| i <= m < j ==> !in_class(k, #[trigger] s[m]),
        j == s.len() || in_class(k, s[j]),
    ensures
        find_class(s, i, k) == j,
    decreases j - i,
{
    if i < j {
        lemma_find_class_at(s, i + 1, j, k);
    }
}

pub fn in_class_exec(k: CharClass, c: char) -> (r: bool)
    ensures
        r == in_class(k, c),
{
    match k {
        CharClass::Separator => c == '/' || c == '\\',
        CharClass::Dot => c == '.',
        CharClass::SeparatorOrDot => c == '/' || c == '\\' || c == '.',
        CharClass::Blank => c == ' ' || c == '\t',
        CharClass::NonBlank => !(c == ' ' || c == '\t'),
        CharClass::LineEnd => c == '\n' || c == '\r',
        CharClass::Newline => c == '\n',
        CharClass::Equals => c == '=',
    }
}

/// The first index at or after `i` that holds a character of class `k`, or `s.len()`.
pub fn find(s: &Vec<char>, i: usize, k: CharClass) -> (r: usize)
    requires
        i <= s.len(),
    ensures
        r == find_class(s@, i as int, k),
        i <= r <= s.len(),
{
    let mut j: usize = i;
    while j < s.len() && !in_class_exec(k, s[j])
        invariant
            i <= j <= s.len(),
            find_class(s@, i as int, k) == find_class(s@, j as int, k),
        decreases s.len() - j,
    {
        j += 1;
    }
    j
}

/// The characters of `s` from index `a` up to, not including, index `b`.
pub fn slice(s: &Vec<char>, a: usize, b: usize) -> (r: Vec<char>)
    requires
        a <= b <= s.len(),
    ensures
        r@ == s@.subrange(a as int, b as int),
{
    let mut r: Vec<char> = Vec::new();
    let mut i: usize = a;
    while i < b
        invariant
            a <= i <= b,
            b <= s.len(),
            r@ == s@.subrange(a as int, i as int),
        decreases b - i,
    {
        r.push(s[i]);
        assert(s@.subrange(a as int, i as int + 1) =~= s@.subrange(a as int, i as int).push(s@[i as int]));
        i += 1;
    }
    r
}

/// Whether `s` begins with `prefix`.
pub fn starts_with(s: &Vec<char>, prefix: &Vec<char>) -> (r: bool)
    ensures
        r == (prefix@.len() <= s@.len() && s@.subrange(0, prefix@.len() as int) == prefix@),
{
    if prefix.len() > s.len() {
        return false;
    }
    let mut i: usize = 0;
    while i < prefix.len()
        invariant
            i <= prefix.len() <= s.len(),
            s@.subrange(0, i as int) == prefix@.subrange(0, i as int),
        decreases prefix.len() - i,
    {
        if s[i] != prefix[i] {
            assert(s@.subrange(0, prefix@.len() as int)[i as int] != prefix@[i as int]);
            return false;
        }
        assert(s@.subrange(0, i as int + 1) =~= prefix@.subrange(0, i as int + 1));
        i += 1;
    }
    assert(prefix@.subrange(0, i as int) =~= prefix@);
    true
}

/// Whether the two character sequences are equal.
pub fn same_chars(a: &Vec<char>, b: &Vec<char>) -> (r: bool)
    ensures
        r == (a@ == b@),
{
    if a.len() != b.len() {
        return false;
    }
    let r = starts_with(a, b);
    assert(a@.subrange(0, b@.len() as int) =~= a@);
    r
}

} // verus!
