//! Character classes and the canonical-text, digest-identity and
//! repository-path checks shared by every record.

use vstd::prelude::*;

verus! {

/// The Unicode `White_Space` property.
pub open spec fn is_white_space(c: char) -> bool {
    let v = c as u32;
    (0x09 <= v <= 0x0d) || v == 0x20 || v == 0x85 || v == 0xa0 || v == 0x1680 || (0x2000 <= v
        <= 0x200a) || v == 0x2028 || v == 0x2029 || v == 0x202f || v == 0x205f || v == 0x3000
}

/// The Unicode general category `Cc` (control codes).
pub open spec fn is_control_char(c: char) -> bool {
    let v = c as u32;
    v <= 0x1f || (0x7f <= v <= 0x9f)
}

pub fn char_is_white_space(c: char) -> (r: bool)
    ensures
        r == is_white_space(c),
{
    let v = c as u32;
    (0x09 <= v && v <= 0x0d) || v == 0x20 || v == 0x85 || v == 0xa0 || v == 0x1680 || (0x2000
        <= v && v <= 0x200a) || v == 0x2028 || v == 0x2029 || v == 0x202f || v == 0x205f || v
        == 0x3000
}

pub fn char_is_control(c: char) -> (r: bool)
    ensures
        r == is_control_char(c),
{
    let v = c as u32;
    v <= 0x1f || (0x7f <= v && v <= 0x9f)
}

/// Text with no leading or trailing white space that is not empty: exactly
/// the strings equal to their own nonempty `trim()`.
pub open spec fn is_trimmed_nonempty(s: Seq<char>) -> bool {
    &&& s.len() > 0
    &&& !is_white_space(s[0])
    &&& !is_white_space(s[s.len() - 1])
}

/// Text that holds no control character.
pub open spec fn control_free(s: Seq<char>) -> bool {
    forall|i: int| 0 <= i < s.len() ==> !is_control_char(#[trigger] s[i])
}

/// Canonical text: nonempty, trimmed and control-free.
pub open spec fn is_canonical_text(s: Seq<char>) -> bool {
    is_trimmed_nonempty(s) && control_free(s)
}

pub fn trimmed_nonempty(s: &str) -> (r: bool)
    ensures
        r == is_trimmed_nonempty(s@),
{
    let n = s.unicode_len();
    if n == 0 {
        return false;
    }
    !char_is_white_space(s.get_char(0)) && !char_is_white_space(s.get_char(n - 1))
}

pub fn has_no_control(s: &str) -> (r: bool)
    ensures
        r == control_free(s@),
{
    let n = s.unicode_len();
    let mut i: usize = 0;
    while i < n
        invariant
            n == s@.len(),
            i <= n,
            forall|j: int| 0 <= j < i ==> !is_control_char(#[trigger] s@[j]),
        decreases n - i,
    {
        if char_is_control(s.get_char(i)) {
            return false;
        }
        i = i + 1;
    }
    true
}

pub fn canonical_text(s: &str) -> (r: bool)
    ensures
        r == is_canonical_text(s@),
{
    trimmed_nonempty(s) && has_no_control(s)
}

/// Lowercase hexadecimal digit.
pub open spec fn is_lower_hex(c: char) -> bool {
    ('0' <= c <= '9') || ('a' <= c <= 'f')
}

/// Hexadecimal digit of either case.
pub open spec fn is_any_hex(c: char) -> bool {
    ('0' <= c <= '9') || ('a' <= c <= 'f') || ('A' <= c <= 'F')
}

/// `s` is `prefix` followed by exactly 64 lowercase hexadecimal digits.
pub open spec fn is_lower_digest_id(s: Seq<char>, prefix: Seq<char>) -> bool {
    &&& s.len() == prefix.len() + 64
    &&& s.subrange(0, prefix.len() as int) == prefix
    &&& forall|i: int| prefix.len() <= i < s.len() ==> is_lower_hex(#[trigger] s[i])
}

/// `s` is `prefix` followed by exactly 64 hexadecimal digits of either case.
pub open spec fn is_any_digest_id(s: Seq<char>, prefix: Seq<char>) -> bool {
    &&& s.len() == prefix.len() + 64
    &&& s.subrange(0, prefix.len() as int) == prefix
    &&& forall|i: int| prefix.len() <= i < s.len() ==> is_any_hex(#[trigger] s[i])
}

pub fn starts_with(s: &str, prefix: &str) -> (r: bool)
    ensures
        r == (prefix@.len() <= s@.len() && s@.subrange(0, prefix@.len() as int) == prefix@),
{
    let n = s.unicode_len();
    let m = prefix.unicode_len();
    if m > n {
        return false;
    }
    let mut i: usize = 0;
    while i < m
        invariant
            n == s@.len(),
            m == prefix@.len(),
            m <= n,
            i <= m,
            forall|j: int| 0 <= j < i ==> s@[j] == prefix@[j],
        decreases m - i,
    {
        if s.get_char(i) != prefix.get_char(i) {
            assert(s@.subrange(0, m as int)[i as int] != prefix@[i as int]);
            return false;
        }
        i = i + 1;
    }
    assert(s@.subrange(0, m as int) =~= prefix@);
    true
}

/// Whether `value` is `prefix` followed by 64 hexadecimal digits, lowercase
/// only when `lowercase` is set.
pub fn digest_id_matches(value: &str, prefix: &str, lowercase: bool) -> (r: bool)
    ensures
        lowercase ==> r == is_lower_digest_id(value@, prefix@),
        !lowercase ==> r == is_any_digest_id(value@, prefix@),
{
    let n = value.unicode_len();
    let m = prefix.unicode_len();
    if !starts_with(value, prefix) || n - m != 64 {
        return false;
    }
    let mut i: usize = m;
    while i < n
        invariant
            n == value@.len(),
            m == prefix@.len(),
            m <= i <= n,
            lowercase ==> forall|j: int| m <= j < i ==> is_lower_hex(#[trigger] value@[j]),
            !lowercase ==> forall|j: int| m <= j < i ==> is_any_hex(#[trigger] value@[j]),
        decreases n - i,
    {
        let c = value.get_char(i);
        let ok = if lowercase {
            ('0' <= c && c <= '9') || ('a' <= c && c <= 'f')
        } else {
            ('0' <= c && c <= '9') || ('a' <= c && c <= 'f') || ('A' <= c && c <= 'F')
        };
        if !ok {
            return false;
        }
        i = i + 1;
    }
    true
}

/// A repository-relative path whose components are all ordinary names: it
/// is nonempty, does not start at the root, does not start with a `.`
/// component, and has no `..` component.
pub open spec fn is_normal_relative_path(s: Seq<char>) -> bool {
    &&& s.len() > 0
    &&& s[0] != '/'
    &&& !(s[0] == '.' && (s.len() == 1 || s[1] == '/'))
    &&& !has_parent_component(s)
}

/// `s` holds a `..` component between separators or the ends.
pub open spec fn has_parent_component(s: Seq<char>) -> bool {
    exists|i: int| #[trigger] is_parent_component_at(s, i)
}

pub open spec fn is_parent_component_at(s: Seq<char>, i: int) -> bool {
    &&& 0 <= i
    &&& i + 2 <= s.len()
    &&& s[i] == '.'
    &&& s[i + 1] == '.'
    &&& (i == 0 || s[i - 1] == '/')
    &&& (i + 2 == s.len() || s[i + 2] == '/')
}

pub fn normal_relative_path(path: &str) -> (r: bool)
    ensures
        r == is_normal_relative_path(path@),
{
    let n = path.unicode_len();
    if n == 0 || path.get_char(0) == '/' {
        return false;
    }
    if path.get_char(0) == '.' && (n == 1 || path.get_char(1) == '/') {
        return false;
    }
    let mut i: usize = 0;
    while i < n - 1
        invariant
            n == path@.len(),
            n > 0,
            forall|j: int| 0 <= j < i ==> !is_parent_component_at(path@, j),
        decreases n - i,
    {
        if path.get_char(i) == '.' && path.get_char(i + 1) == '.' && (i == 0 || path.get_char(
            i - 1,
        ) == '/') && (i + 2 == n || path.get_char(i + 2) == '/') {
            assert(is_parent_component_at(path@, i as int));
            return false;
        }
        i = i + 1;
    }
    assert forall|j: int| !is_parent_component_at(path@, j) by {
        if 0 <= j && j + 2 <= n {
            assert(j < i);
        }
    }
    true
}


/// `needle` occurs in `s` starting at `i`.
pub open spec fn occurs_at(s: Seq<char>, needle: Seq<char>, i: int) -> bool {
    0 <= i && i + needle.len() <= s.len() && s.subrange(i, i + needle.len()) == needle
}

/// `needle` occurs somewhere in `s`.
pub open spec fn contains_text(s: Seq<char>, needle: Seq<char>) -> bool {
    exists|i: int| #[trigger] occurs_at(s, needle, i)
}

pub fn occurs_at_exec(s: &str, needle: &str, i: usize) -> (r: bool)
    requires
        i + needle@.len() <= s@.len(),
    ensures
        r == occurs_at(s@, needle@, i as int),
{
    let m = needle.unicode_len();
    let n = s.unicode_len();
    let mut k: usize = 0;
    while k < m
        invariant
            m == needle@.len(),
            n == s@.len(),
            i + m <= s@.len(),
            k <= m,
            forall|j: int| 0 <= j < k ==> s@[i + j] == needle@[j],
        decreases m - k,
    {
        if s.get_char(i + k) != needle.get_char(k) {
            assert(s@.subrange(i as int, i + m)[k as int] != needle@[k as int]);
            return false;
        }
        k = k + 1;
    }
    assert(s@.subrange(i as int, i + m) =~= needle@);
    true
}

/// Whether `needle` occurs in `s`.
pub fn contains_substring(s: &str, needle: &str) -> (r: bool)
    ensures
        r == contains_text(s@, needle@),
{
    let n = s.unicode_len();
    let m = needle.unicode_len();
    if m > n {
        return false;
    }
    if m == 0 {
        assert(s@.subrange(0, 0) =~= needle@);
        assert(occurs_at(s@, needle@, 0));
        return true;
    }
    let mut i: usize = 0;
    while i <= n - m
        invariant
            n == s@.len(),
            m == needle@.len(),
            0 < m <= n,
            i <= n - m + 1,
            forall|j: int| 0 <= j < i ==> !#[trigger] occurs_at(s@, needle@, j),
        decreases n - m + 1 - i,
    {
        if occurs_at_exec(s, needle, i) {
            return true;
        }
        i = i + 1;
    }
    proof {
        assert forall|j: int| !#[trigger] occurs_at(s@, needle@, j) by {
            if 0 <= j && j + m <= n {
                assert(j < i);
            }
        }
    }
    false
}


/// `s` without its leading white space, as `str::trim_start` gives it.
pub open spec fn trim_start(s: Seq<char>) -> Seq<char>
    decreases s.len(),
{
    if s.len() > 0 && is_white_space(s[0]) {
        trim_start(s.drop_first())
    } else {
        s
    }
}

/// `s` without its trailing white space, as `str::trim_end` gives it.
pub open spec fn trim_end(s: Seq<char>) -> Seq<char>
    decreases s.len(),
{
    if s.len() > 0 && is_white_space(s.last()) {
        trim_end(s.drop_last())
    } else {
        s
    }
}

/// `s` without leading or trailing white space, as `str::trim` gives it.
pub open spec fn trim(s: Seq<char>) -> Seq<char> {
    trim_end(trim_start(s))
}

/// The position of the first character of `s` that is not white space.
fn leading_white_space(s: &str) -> (r: usize)
    ensures
        r <= s@.len(),
        trim_start(s@) == s@.subrange(r as int, s@.len() as int),
{
    let n = s.unicode_len();
    let mut i: usize = 0;
    assert(s@.subrange(0, n as int) =~= s@);
    while i < n && char_is_white_space(s.get_char(i))
        invariant
            n == s@.len(),
            i <= n,
            trim_start(s@) == trim_start(s@.subrange(i as int, n as int)),
        decreases n - i,
    {
        assert(s@.subrange(i as int, n as int).drop_first() =~= s@.subrange(i + 1, n as int));
        i = i + 1;
    }
    i
}

/// `s` with the leading and trailing white space removed.
pub fn trimmed(s: &str) -> (r: String)
    ensures
        r@ == trim(s@),
{
    let n = s.unicode_len();
    let start = leading_white_space(s);
    let mut end: usize = n;
    assert(s@.subrange(start as int, n as int) == trim_start(s@));
    while end > start && char_is_white_space(s.get_char(end - 1))
        invariant
            n == s@.len(),
            start <= end <= n,
            trim(s@) == trim_end(s@.subrange(start as int, end as int)),
        decreases end,
    {
        assert(s@.subrange(start as int, end as int).drop_last() =~= s@.subrange(start as int, end - 1));
        end = end - 1;
    }
    s.substring_char(start, end).to_owned()
}

/// Whether `s`, without its leading white space, starts with `prefix`.
pub fn trimmed_start_starts_with(s: &str, prefix: &str) -> (r: bool)
    ensures
        r == (prefix@.len() <= trim_start(s@).len() && trim_start(s@).subrange(0, prefix@.len() as int)
            == prefix@),
{
    let n = s.unicode_len();
    let start = leading_white_space(s);
    let rest = s.substring_char(start, n);
    starts_with(rest, prefix)
}

/// Whether `s`, without its trailing white space, ends with `c`.
pub fn trimmed_end_ends_with(s: &str, c: char) -> (r: bool)
    ensures
        r == (trim_end(s@).len() > 0 && trim_end(s@).last() == c),
{
    let n = s.unicode_len();
    let mut end: usize = n;
    assert(s@.subrange(0, n as int) =~= s@);
    while end > 0 && char_is_white_space(s.get_char(end - 1))
        invariant
            n == s@.len(),
            end <= n,
            trim_end(s@) == trim_end(s@.subrange(0, end as int)),
        decreases end,
    {
        assert(s@.subrange(0, end as int).drop_last() =~= s@.subrange(0, end - 1));
        end = end - 1;
    }
    assert(trim_end(s@.subrange(0, end as int)) == s@.subrange(0, end as int));
    end > 0 && s.get_char(end - 1) == c
}

/// The first position at which `needle` occurs in `s`, if it occurs.
pub open spec fn first_occurrence(s: Seq<char>, needle: Seq<char>) -> Option<int> {
    if contains_text(s, needle) {
        Some(choose|i: int| #[trigger] occurs_at(s, needle, i) && forall|j: int| j < i ==> !occurs_at(s, needle, j))
    } else {
        None
    }
}

/// The first position at which `needle` occurs in `s`, as
/// `first_occurrence` gives it.
pub fn find_substring(s: &str, needle: &str) -> (r: Option<usize>)
    ensures
        r is None ==> first_occurrence(s@, needle@) is None,
        r matches Some(i) ==> first_occurrence(s@, needle@) == Some(i as int) && i + needle@.len() <= s@.len(),
{
    let n = s.unicode_len();
    let m = needle.unicode_len();
    if m > n {
        proof {
            assert forall|j: int| !#[trigger] occurs_at(s@, needle@, j) by {}
        }
        return None;
    }
    if m == 0 {
        proof {
            assert(s@.subrange(0, 0) =~= needle@);
            assert(occurs_at(s@, needle@, 0));
            let c = choose|c: int| #[trigger] occurs_at(s@, needle@, c) && forall|j: int| j < c ==> !occurs_at(s@, needle@, j);
            if c > 0 {
                assert(!occurs_at(s@, needle@, 0));
            }
        }
        return Some(0);
    }
    let mut i: usize = 0;
    while i <= n - m
        invariant
            n == s@.len(),
            m == needle@.len(),
            0 < m <= n,
            i <= n - m + 1,
            forall|j: int| 0 <= j < i ==> !#[trigger] occurs_at(s@, needle@, j),
        decreases n - m + 1 - i,
    {
        if occurs_at_exec(s, needle, i) {
            proof {
                assert forall|j: int| j < i implies !occurs_at(s@, needle@, j) by {
                    if j >= 0 {
                        assert(!occurs_at(s@, needle@, j));
                    }
                }
                let c = choose|c: int| #[trigger] occurs_at(s@, needle@, c) && forall|j: int| j < c ==> !occurs_at(s@, needle@, j);
                assert(occurs_at(s@, needle@, i as int));
                if c < i {
                    assert(!occurs_at(s@, needle@, c));
                } else if c > i {
                    assert(!occurs_at(s@, needle@, i as int));
                }
            }
            return Some(i);
        }
        i = i + 1;
    }
    proof {
        assert forall|j: int| !#[trigger] occurs_at(s@, needle@, j) by {
            if 0 <= j && j + m <= n {
                assert(j < i);
            }
        }
    }
    None
}

/// `word` occurs in `s` at `i` as a whole white-space-separated part.
pub open spec fn word_at(s: Seq<char>, word: Seq<char>, i: int) -> bool {
    &&& occurs_at(s, word, i)
    &&& (i == 0 || is_white_space(s[i - 1]))
    &&& (i + word.len() == s.len() || is_white_space(s[i + word.len()]))
}

/// One of the white-space-separated parts of `s` is `word`.
pub open spec fn has_word(s: Seq<char>, word: Seq<char>) -> bool {
    exists|i: int| #[trigger] word_at(s, word, i)
}

/// Whether one of the white-space-separated parts of `s` is `word`.
pub fn contains_word(s: &str, word: &str) -> (r: bool)
    requires
        word@.len() > 0,
    ensures
        r == has_word(s@, word@),
{
    let n = s.unicode_len();
    let m = word.unicode_len();
    if m > n {
        proof {
            assert forall|j: int| !#[trigger] word_at(s@, word@, j) by {}
        }
        return false;
    }
    let mut i: usize = 0;
    while i <= n - m
        invariant
            n == s@.len(),
            m == word@.len(),
            0 < m <= n,
            i <= n - m + 1,
            forall|j: int| 0 <= j < i ==> !#[trigger] word_at(s@, word@, j),
        decreases n - m + 1 - i,
    {
        if occurs_at_exec(s, word, i) && (i == 0 || char_is_white_space(s.get_char(i - 1))) && (i + m == n
            || char_is_white_space(s.get_char(i + m))) {
            assert(word_at(s@, word@, i as int));
            return true;
        }
        i = i + 1;
    }
    proof {
        assert forall|j: int| !#[trigger] word_at(s@, word@, j) by {
            if 0 <= j && j + m <= n {
                assert(j < i);
            }
        }
    }
    false
}
} // verus!
