//! Character and string utilities shared by the grammar, the registry codec
//! and the emitter.

use vstd::prelude::*;

verus! {

/// Characters that may start an identifier in the attribute mini-language.
pub open spec fn spec_is_ident_start(c: char) -> bool {
    ('a' <= c && c <= 'z') || ('A' <= c && c <= 'Z') || c == '_'
}

/// Characters that may continue an identifier in the attribute mini-language.
pub open spec fn spec_is_ident_char(c: char) -> bool {
    spec_is_ident_start(c) || ('0' <= c && c <= '9')
}

pub fn is_ident_start(c: char) -> (r: bool)
    ensures
        r == spec_is_ident_start(c),
{
    ('a' <= c && c <= 'z') || ('A' <= c && c <= 'Z') || c == '_'
}

pub fn is_ident_char(c: char) -> (r: bool)
    ensures
        r == spec_is_ident_char(c),
{
    is_ident_start(c) || ('0' <= c && c <= '9')
}

/// No newline occurs in the string: the registry codec stores one value per
/// line, so stored strings must be newline-free.
pub open spec fn spec_line_safe(s: Seq<char>) -> bool {
    forall|i: int| 0 <= i < s.len() ==> #[trigger] s[i] != '\n'
}

pub fn is_line_safe(s: &str) -> (r: bool)
    ensures
        r == spec_line_safe(s@),
{
    let n = s.unicode_len();
    let mut i: usize = 0;
    while i < n
        invariant
            0 <= i <= n,
            n == s@.len(),
            forall|j: int| 0 <= j < i ==> #[trigger] s@[j] != '\n',
        decreases n - i,
    {
        if s.get_char(i) == '\n' {
            return false;
        }
        i += 1;
    }
    true
}

/// Whitespace, as the mini-language and doc trimming understand it.
pub open spec fn spec_is_trim_space(c: char) -> bool {
    c == ' ' || c == '\t' || c == '\r' || c == '\n'
}

pub fn is_trim_space(c: char) -> (r: bool)
    ensures
        r == spec_is_trim_space(c),
{
    c == ' ' || c == '\t' || c == '\r' || c == '\n'
}

/// First index at or after `i` holding a non-space character.
pub open spec fn spec_skip_space(s: Seq<char>, i: int) -> int
    decreases s.len() - i,
    when 0 <= i <= s.len()
{
    if i < s.len() && spec_is_trim_space(s[i]) {
        spec_skip_space(s, i + 1)
    } else {
        i
    }
}

pub proof fn lemma_skip_space_bounds(s: Seq<char>, i: int)
    requires
        0 <= i <= s.len(),
    ensures
        i <= spec_skip_space(s, i) <= s.len(),
    decreases s.len() - i,
{
    if i < s.len() && spec_is_trim_space(s[i]) {
        lemma_skip_space_bounds(s, i + 1);
    }
}

/// End of the string once trailing spaces before `j` are dropped.
pub open spec fn spec_trim_end(s: Seq<char>, j: int) -> int
    decreases j,
    when 0 <= j <= s.len()
{
    if j > 0 && spec_is_trim_space(s[j - 1]) {
        spec_trim_end(s, j - 1)
    } else {
        j
    }
}

pub proof fn lemma_trim_end_bounds(s: Seq<char>, j: int)
    requires
        0 <= j <= s.len(),
    ensures
        0 <= spec_trim_end(s, j) <= j,
    decreases j,
{
    if j > 0 && spec_is_trim_space(s[j - 1]) {
        lemma_trim_end_bounds(s, j - 1);
    }
}

/// The string with leading and trailing whitespace removed.
pub open spec fn spec_trim(s: Seq<char>) -> Seq<char> {
    let b = spec_skip_space(s, 0);
    let e = spec_trim_end(s, s.len() as int);
    if b < e {
        s.subrange(b, e)
    } else {
        Seq::empty()
    }
}

fn skip_space(s: &str, i: usize) -> (r: usize)
    requires
        i <= s@.len(),
    ensures
        r as int == spec_skip_space(s@, i as int),
        i <= r <= s@.len(),
    decreases s@.len() - i,
{
    let n = s.unicode_len();
    if i < n && is_trim_space(s.get_char(i)) {
        skip_space(s, i + 1)
    } else {
        i
    }
}

fn trim_end(s: &str, j: usize) -> (r: usize)
    requires
        j <= s@.len(),
    ensures
        r as int == spec_trim_end(s@, j as int),
        r <= j,
    decreases j,
{
    if j > 0 && is_trim_space(s.get_char(j - 1)) {
        trim_end(s, j - 1)
    } else {
        j
    }
}

/// Remove leading and trailing whitespace.
pub fn trim(s: &str) -> (r: String)
    ensures
        r@ == spec_trim(s@),
{
    let n = s.unicode_len();
    let b = skip_space(s, 0);
    let e = trim_end(s, n);
    if b < e {
        s.substring_char(b, e).to_owned()
    } else {
        let r = String::new();
        assert(r@ =~= spec_trim(s@));
        r
    }
}

/// First index at or after `i` holding a newline, or the length.
pub open spec fn spec_line_end(s: Seq<char>, i: int) -> int
    decreases s.len() - i,
    when 0 <= i <= s.len()
{
    if i < s.len() && s[i] != '\n' {
        spec_line_end(s, i + 1)
    } else {
        i
    }
}

pub proof fn lemma_line_end_bounds(s: Seq<char>, i: int)
    requires
        0 <= i <= s.len(),
    ensures
        i <= spec_line_end(s, i) <= s.len(),
        forall|k: int| i <= k < spec_line_end(s, i) ==> s[k] != '\n',
        spec_line_end(s, i) < s.len() ==> s[spec_line_end(s, i)] == '\n',
    decreases s.len() - i,
{
    if i < s.len() && s[i] != '\n' {
        lemma_line_end_bounds(s, i + 1);
    }
}

/// The first newline position is pinned by its characterization: no
/// newline before it, a newline at it unless the string ends there.
pub proof fn lemma_line_end_unique(s: Seq<char>, i: int, e: int)
    requires
        0 <= i <= e <= s.len(),
        forall|k: int| i <= k < e ==> s[k] != '\n',
        e < s.len() ==> s[e] == '\n',
    ensures
        spec_line_end(s, i) == e,
    decreases e - i,
{
    if i < e {
        lemma_line_end_unique(s, i + 1, e);
    }
}

/// Everything before the first newline.
pub open spec fn spec_first_line(s: Seq<char>) -> Seq<char> {
    s.subrange(0, spec_line_end(s, 0))
}

pub fn line_end(s: &str, i: usize) -> (r: usize)
    requires
        i <= s@.len(),
    ensures
        r as int == spec_line_end(s@, i as int),
        i <= r <= s@.len(),
    decreases s@.len() - i,
{
    let n = s.unicode_len();
    if i < n && s.get_char(i) != '\n' {
        line_end(s, i + 1)
    } else {
        i
    }
}

/// Everything before the first newline.
pub fn first_line(s: &str) -> (r: String)
    ensures
        r@ == spec_first_line(s@),
{
    proof {
        lemma_line_end_bounds(s@, 0);
    }
    let e = line_end(s, 0);
    s.substring_char(0, e).to_owned()
}

/// Character-for-character string equality.
pub fn str_eq_str(a: &str, b: &str) -> (r: bool)
    ensures
        r == (a@ == b@),
{
    let na = a.unicode_len();
    let nb = b.unicode_len();
    if na != nb {
        return false;
    }
    let mut i: usize = 0;
    while i < na
        invariant
            0 <= i <= na,
            na == a@.len(),
            na == b@.len(),
            forall|j: int| 0 <= j < i ==> a@[j] == b@[j],
        decreases na - i,
    {
        if a.get_char(i) != b.get_char(i) {
            assert(a@ != b@);
            return false;
        }
        i += 1;
    }
    assert(a@ =~= b@);
    true
}

/// Whether some element of `v` holds exactly the characters of `s`.
pub fn contains_str(v: &Vec<String>, s: &str) -> (r: bool)
    ensures
        r == v.deep_view().contains(s@),
{
    let n = v.len();
    let mut i: usize = 0;
    while i < n
        invariant
            0 <= i <= n,
            n == v@.len(),
            v.deep_view().len() == v@.len(),
            forall|j: int| 0 <= j < v@.len() ==> v.deep_view()[j] == v@[j]@,
            forall|j: int| 0 <= j < i ==> v@[j]@ != s@,
        decreases n - i,
    {
        if str_eq_str(v[i].as_str(), s) {
            assert(v.deep_view()[i as int] == s@);
            return true;
        }
        i += 1;
    }
    assert(forall|j: int| 0 <= j < v.deep_view().len() ==> v.deep_view()[j] != s@);
    false
}

} // verus!
