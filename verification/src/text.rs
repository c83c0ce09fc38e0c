//! Small verified helpers over strings and their character sequences.

use vstd::prelude::*;

verus! {

/// Copy a string slice into an owned `String`.
pub fn to_owned_string(s: &str) -> (r: String)
    ensures
        r@ == s@,
{
    String::from_str(s)
}

/// Character-wise equality of two string slices.
pub fn str_eq(a: &str, b: &str) -> (r: bool)
    ensures
        r == (a@ == b@),
{
    let a_len = a.unicode_len();
    let b_len = b.unicode_len();
    if a_len != b_len {
        return false;
    }
    let mut i: usize = 0;
    while i < a_len
        invariant
            i <= a_len,
            a_len == a@.len(),
            b_len == b@.len(),
            a_len == b_len,
            forall|j: int| 0 <= j < i ==> a@[j] == b@[j],
        decreases a_len - i,
    {
        if a.get_char(i) != b.get_char(i) {
            return false;
        }
        i += 1;
    }
    assert(a@ =~= b@);
    true
}

/// ASCII upper-casing of one character; other characters pass unchanged.
pub open spec fn ascii_upper_char(c: char) -> char {
    if 'a' <= c && c <= 'z' {
        ((c as u32) - 32) as char
    } else {
        c
    }
}

/// ASCII upper-casing of a character sequence.
pub open spec fn ascii_upper(s: Seq<char>) -> Seq<char> {
    s.map_values(|c: char| ascii_upper_char(c))
}

/// ASCII lower-casing of one character; other characters pass unchanged.
pub open spec fn ascii_lower_char(c: char) -> char {
    if 'A' <= c && c <= 'Z' {
        ((c as u32) + 32) as char
    } else {
        c
    }
}

/// ASCII lower-casing of a character sequence.
pub open spec fn ascii_lower(s: Seq<char>) -> Seq<char> {
    s.map_values(|c: char| ascii_lower_char(c))
}

/// True iff ASCII-lower-casing `s` yields exactly `t`.
pub fn ascii_lower_matches(s: &str, t: &str) -> (r: bool)
    ensures
        r == (ascii_lower(s@) == t@),
{
    let s_len = s.unicode_len();
    let t_len = t.unicode_len();
    if s_len != t_len {
        assert(ascii_lower(s@).len() == s@.len());
        return false;
    }
    let mut i: usize = 0;
    while i < s_len
        invariant
            i <= s_len,
            s_len == s@.len(),
            t_len == t@.len(),
            s_len == t_len,
            forall|j: int| 0 <= j < i ==> ascii_lower_char(s@[j]) == t@[j],
        decreases s_len - i,
    {
        let c = s.get_char(i);
        let d = t.get_char(i);
        let cu = c as u32;
        let lo: u32 = if 65 <= cu && cu <= 90 {
            cu + 32
        } else {
            cu
        };
        assert(lo == ascii_lower_char(s@[i as int]) as u32) by {
            assert(('A' <= s@[i as int] && s@[i as int] <= 'Z') <==> (65 <= cu && cu <= 90));
        }
        if lo != d as u32 {
            assert(ascii_lower_char(s@[i as int]) != t@[i as int]);
            assert(ascii_lower(s@)[i as int] != t@[i as int]);
            return false;
        }
        assert(ascii_lower_char(s@[i as int]) == t@[i as int]);
        i += 1;
    }
    assert(ascii_lower(s@) =~= t@);
    true
}

/// True iff ASCII-upper-casing `s` yields exactly `t`.
pub fn ascii_upper_matches(s: &str, t: &str) -> (r: bool)
    ensures
        r == (ascii_upper(s@) == t@),
{
    let s_len = s.unicode_len();
    let t_len = t.unicode_len();
    if s_len != t_len {
        assert(ascii_upper(s@).len() == s@.len());
        return false;
    }
    let mut i: usize = 0;
    while i < s_len
        invariant
            i <= s_len,
            s_len == s@.len(),
            t_len == t@.len(),
            s_len == t_len,
            forall|j: int| 0 <= j < i ==> ascii_upper_char(s@[j]) == t@[j],
        decreases s_len - i,
    {
        let c = s.get_char(i);
        let d = t.get_char(i);
        let cu = c as u32;
        let up: u32 = if 97 <= cu && cu <= 122 {
            cu - 32
        } else {
            cu
        };
        assert(up == ascii_upper_char(s@[i as int]) as u32) by {
            assert(('a' <= s@[i as int] && s@[i as int] <= 'z') <==> (97 <= cu && cu <= 122));
        }
        if up != d as u32 {
            assert(ascii_upper_char(s@[i as int]) != t@[i as int]);
            assert(ascii_upper(s@)[i as int] != t@[i as int]);
            return false;
        }
        assert(ascii_upper_char(s@[i as int]) == t@[i as int]);
        i += 1;
    }
    assert(ascii_upper(s@) =~= t@);
    true
}

/// Index of the first occurrence of `c` in `s` at or after `from`.
pub open spec fn spec_find_char(s: Seq<char>, from: int, c: char) -> Option<int>
    decreases s.len() - from,
{
    if from < 0 || from >= s.len() {
        None
    } else if s[from] == c {
        Some(from)
    } else {
        spec_find_char(s, from + 1, c)
    }
}

/// Find the first occurrence of `c` in `s` at or after index `from`.
pub fn find_char(s: &str, from: usize, c: char) -> (r: Option<usize>)
    ensures
        match r {
            Some(i) => from <= i < s@.len() && spec_find_char(s@, from as int, c) == Some(i as int),
            None => spec_find_char(s@, from as int, c) is None,
        },
{
    let s_len = s.unicode_len();
    if from >= s_len {
        return None;
    }
    let mut i: usize = from;
    while i < s_len
        invariant
            from <= i <= s_len,
            s_len == s@.len(),
            spec_find_char(s@, from as int, c) == spec_find_char(s@, i as int, c),
        decreases s_len - i,
    {
        if s.get_char(i) == c {
            return Some(i);
        }
        i += 1;
    }
    None
}

/// Lexicographic order on character sequences by code point.
///
/// Because UTF-8 preserves code-point order byte-wise, this is also the
/// byte-lexicographic order of the sequences' UTF-8 encodings.
pub open spec fn chars_lt(a: Seq<char>, b: Seq<char>) -> bool
    decreases a.len(),
{
    if b.len() == 0 {
        false
    } else if a.len() == 0 {
        true
    } else if a[0] != b[0] {
        (a[0] as u32) < (b[0] as u32)
    } else {
        chars_lt(a.drop_first(), b.drop_first())
    }
}

/// Non-strict companion of [`chars_lt`].
pub open spec fn chars_le(a: Seq<char>, b: Seq<char>) -> bool {
    a == b || chars_lt(a, b)
}

/// Distinct characters have distinct code points.
pub proof fn lemma_char_code_injective(c: char, d: char)
    ensures
        c != d ==> c as u32 != d as u32,
{
}

/// Exactly one of `a < b`, `a == b`, `b < a` holds.
pub proof fn lemma_chars_lt_trichotomy(a: Seq<char>, b: Seq<char>)
    ensures
        chars_lt(a, b) || chars_lt(b, a) || a == b,
        chars_lt(a, b) ==> !chars_lt(b, a) && a != b,
        chars_lt(b, a) ==> !chars_lt(a, b) && a != b,
    decreases a.len(),
{
    if a.len() > 0 && b.len() > 0 && a[0] == b[0] {
        lemma_chars_lt_trichotomy(a.drop_first(), b.drop_first());
        if a.drop_first() == b.drop_first() {
            assert forall|i: int| 0 <= i < a.len() implies a[i] == b[i] by {
                if i > 0 {
                    assert(a[i] == a.drop_first()[i - 1]);
                    assert(b[i] == b.drop_first()[i - 1]);
                }
            }
            assert(a =~= b);
        }
    } else if a.len() > 0 && b.len() > 0 {
        lemma_char_code_injective(a[0], b[0]);
    } else {
        if a.len() == 0 && b.len() == 0 {
            assert(a =~= b);
        }
    }
}

/// The code-point order is transitive.
pub proof fn lemma_chars_lt_transitive(a: Seq<char>, b: Seq<char>, c: Seq<char>)
    requires
        chars_lt(a, b),
        chars_lt(b, c),
    ensures
        chars_lt(a, c),
    decreases a.len(),
{
    if c.len() > 0 && b.len() > 0 && a.len() > 0 {
        if a[0] == b[0] && b[0] == c[0] {
            lemma_chars_lt_transitive(a.drop_first(), b.drop_first(), c.drop_first());
        }
    }
}

/// Strict code-point comparison of two string slices.
pub fn str_lt(a: &str, b: &str) -> (r: bool)
    ensures
        r == chars_lt(a@, b@),
{
    let a_len = a.unicode_len();
    let b_len = b.unicode_len();
    let mut i: usize = 0;
    assert(a@.skip(0) == a@);
    assert(b@.skip(0) == b@);
    loop
        invariant
            i <= a_len,
            i <= b_len,
            a_len == a@.len(),
            b_len == b@.len(),
            forall|j: int| 0 <= j < i ==> a@[j] == b@[j],
            chars_lt(a@, b@) == chars_lt(a@.skip(i as int), b@.skip(i as int)),
        decreases a_len - i,
    {
        if i >= b_len {
            assert(b@.skip(i as int).len() == 0);
            return false;
        }
        if i >= a_len {
            assert(a@.skip(i as int).len() == 0 && b@.skip(i as int).len() > 0);
            return true;
        }
        let ca = a.get_char(i);
        let cb = b.get_char(i);
        proof {
            assert(a@.skip(i as int)[0] == a@[i as int]);
            assert(b@.skip(i as int)[0] == b@[i as int]);
            assert(a@.skip(i as int).drop_first() =~= a@.skip(i as int + 1));
            assert(b@.skip(i as int).drop_first() =~= b@.skip(i as int + 1));
        }
        if ca as u32 != cb as u32 {
            assert(a@[i as int] != b@[i as int]);
            return (ca as u32) < (cb as u32);
        }
        assert(a@[i as int] == b@[i as int]);
        i += 1;
    }
}

/// The Unicode lower-casing of a character sequence; the result depends on
/// the characters alone.
pub uninterp spec fn lower_of(s: Seq<char>) -> Seq<char>;

/// Relies on `str::to_lowercase`: the Unicode lower-case form of the input.
#[verifier::external_body]
pub fn unicode_lowercase(s: &str) -> (r: String)
    ensures
        r@ == lower_of(s@),
{
    s.to_lowercase()
}

/// Whether `needle` occurs as a contiguous run inside `hay`.
pub open spec fn spec_contains_sub(hay: Seq<char>, needle: Seq<char>) -> bool {
    exists|k: int|
        0 <= k && k + needle.len() <= hay.len() && #[trigger] hay.subrange(k, k + needle.len())
            == needle
}

/// Substring search by direct comparison at every offset.
pub fn str_contains(hay: &str, needle: &str) -> (r: bool)
    ensures
        r == spec_contains_sub(hay@, needle@),
{
    let h_len = hay.unicode_len();
    let n_len = needle.unicode_len();
    if n_len > h_len {
        return false;
    }
    if n_len == 0 {
        assert(spec_contains_sub(hay@, needle@)) by {
            assert(hay@.subrange(0, 0 + needle@.len() as int) =~= needle@);
        }
        return true;
    }
    let mut k: usize = 0;
    while k <= h_len - n_len
        invariant
            n_len <= h_len,
            h_len == hay@.len(),
            n_len == needle@.len(),
            k <= h_len - n_len + 1,
            n_len >= 1,
            forall|k2: int|
                0 <= k2 < k ==> #[trigger] hay@.subrange(k2, k2 + needle@.len()) != needle@,
        decreases h_len - n_len + 1 - k,
    {
        let mut j: usize = 0;
        let mut matched = true;
        while j < n_len
            invariant
                j <= n_len,
                k + n_len <= h_len,
                h_len == hay@.len(),
                n_len == needle@.len(),
                matched ==> forall|t: int| 0 <= t < j ==> hay@[k + t] == needle@[t],
                !matched ==> hay@.subrange(k as int, k as int + needle@.len()) != needle@,
            decreases n_len - j,
        {
            if hay.get_char(k + j) != needle.get_char(j) {
                matched = false;
                proof {
                    assert(hay@.subrange(k as int, k as int + needle@.len())[j as int] == hay@[
                        k as int + j as int
                    ]);
                    assert(hay@.subrange(k as int, k as int + needle@.len()) != needle@);
                }
                j = n_len;
            } else {
                j += 1;
            }
        }
        if matched {
            assert(hay@.subrange(k as int, k as int + needle@.len()) =~= needle@);
            return true;
        }
        assert(hay@.subrange(k as int, k as int + needle@.len()) != needle@);
        k += 1;
    }
    false
}

/// Whether every character of the sequence is an ASCII digit.
pub open spec fn spec_all_digits(s: Seq<char>) -> bool {
    forall|i: int| 0 <= i < s.len() ==> '0' <= #[trigger] s[i] && s[i] <= '9'
}

/// Whether every character of `s` is an ASCII digit (true for empty input).
pub fn all_ascii_digits(s: &str) -> (r: bool)
    ensures
        r == spec_all_digits(s@),
{
    let s_len = s.unicode_len();
    let mut i: usize = 0;
    while i < s_len
        invariant
            i <= s_len,
            s_len == s@.len(),
            forall|j: int| 0 <= j < i ==> '0' <= #[trigger] s@[j] && s@[j] <= '9',
        decreases s_len - i,
    {
        let c = s.get_char(i) as u32;
        if c < 48 || c > 57 {
            assert(!('0' <= s@[i as int] && s@[i as int] <= '9'));
            return false;
        }
        assert('0' <= s@[i as int] && s@[i as int] <= '9');
        i += 1;
    }
    true
}

} // verus!
