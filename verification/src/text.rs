//! Byte- and character-level scanning helpers: substring search and
//! whitespace trimming, with exact specifications.

use vstd::prelude::*;

verus! {

/// ASCII whitespace, as trimmed around charset labels.
pub open spec fn is_ws_byte(b: u8) -> bool {
    b == 32 || b == 9 || b == 10 || b == 13 || b == 11 || b == 12
}

/// ASCII whitespace characters, as trimmed around element text.
pub open spec fn is_ws_char(c: char) -> bool {
    c == ' ' || c == '\t' || c == '\n' || c == '\r'
}

/// `pat` occurs in `s` starting at position `i`.
pub open spec fn matches_at(s: Seq<u8>, pat: Seq<u8>, i: int) -> bool {
    0 <= i && i + pat.len() <= s.len() && s.subrange(i, i + pat.len() as int) == pat
}

/// Index of the first occurrence of `pat` in `s` at or after `from`.
pub open spec fn find_spec(s: Seq<u8>, pat: Seq<u8>, from: int) -> Option<int>
    decreases s.len() + 1 - from,
{
    if from + pat.len() > s.len() {
        None
    } else if matches_at(s, pat, from) {
        Some(from)
    } else {
        find_spec(s, pat, from + 1)
    }
}

/// `pat` occurs in `s` starting at character position `i`.
pub open spec fn matches_at_c(s: Seq<char>, pat: Seq<char>, i: int) -> bool {
    0 <= i && i + pat.len() <= s.len() && s.subrange(i, i + pat.len() as int) == pat
}

/// Index of the first occurrence of `pat` in `s` at or after `from`,
/// counting characters.
pub open spec fn find_spec_c(s: Seq<char>, pat: Seq<char>, from: int) -> Option<int>
    decreases s.len() + 1 - from,
{
    if from + pat.len() > s.len() {
        None
    } else if matches_at_c(s, pat, from) {
        Some(from)
    } else {
        find_spec_c(s, pat, from + 1)
    }
}

/// `s` with leading and trailing ASCII whitespace bytes removed.
pub open spec fn trim_spec(s: Seq<u8>) -> Seq<u8>
    decreases s.len(),
{
    if s.len() == 0 {
        s
    } else if is_ws_byte(s.first()) {
        trim_spec(s.drop_first())
    } else if is_ws_byte(s.last()) {
        trim_spec(s.drop_last())
    } else {
        s
    }
}

/// `s` with leading and trailing ASCII whitespace characters removed.
pub open spec fn trim_spec_c(s: Seq<char>) -> Seq<char>
    decreases s.len(),
{
    if s.len() == 0 {
        s
    } else if is_ws_char(s.first()) {
        trim_spec_c(s.drop_first())
    } else if is_ws_char(s.last()) {
        trim_spec_c(s.drop_last())
    } else {
        s
    }
}

fn bytes_match_at(s: &Vec<u8>, pat: &Vec<u8>, i: usize) -> (r: bool)
    requires
        i + pat@.len() <= s@.len(),
    ensures
        r == matches_at(s@, pat@, i as int),
{
    let n: usize = s.len();
    let mut j: usize = 0;
    while j < pat.len()
        invariant
            n == s@.len(),
            i + pat@.len() <= s@.len(),
            j <= pat@.len(),
            forall|k: int| 0 <= k < j ==> s@[i + k] == pat@[k],
        decreases pat@.len() - j,
    {
        if s[i + j] != pat[j] {
            proof {
                assert(!matches_at(s@, pat@, i as int)) by {
                    if matches_at(s@, pat@, i as int) {
                        assert(s@.subrange(i as int, i + pat@.len() as int)[j as int]
                            == pat@[j as int]);
                    }
                }
            }
            return false;
        }
        j = j + 1;
    }
    proof {
        assert(s@.subrange(i as int, i + pat@.len() as int) =~= pat@);
    }
    true
}

/// First occurrence of `pat` in `s` at or after `from`, or `None`.
pub fn find_bytes(s: &Vec<u8>, pat: &Vec<u8>, from: usize) -> (r: Option<usize>)
    requires
        pat@.len() >= 1,
    ensures
        match r {
            Some(i) => find_spec(s@, pat@, from as int) == Some(i as int),
            None => find_spec(s@, pat@, from as int) is None,
        },
{
    if pat.len() > s.len() {
        proof {
            lemma_find_none_when_short(s@, pat@, from as int);
        }
        return None;
    }
    let n: usize = s.len();
    let last: usize = n - pat.len();
    let mut i: usize = from;
    if i > last {
        return None;
    }
    while i <= last
        invariant
            n == s@.len(),
            pat@.len() >= 1,
            pat@.len() <= s@.len(),
            last == s@.len() - pat@.len(),
            from <= i,
            find_spec(s@, pat@, from as int) == find_spec(s@, pat@, i as int),
        decreases last + 1 - i,
    {
        if bytes_match_at(s, pat, i) {
            return Some(i);
        }
        i = i + 1;
    }
    None
}

proof fn lemma_find_none_when_short(s: Seq<u8>, pat: Seq<u8>, from: int)
    requires
        pat.len() > s.len(),
    ensures
        find_spec(s, pat, from) is None,
    decreases s.len() - from,
{
    if from + pat.len() > s.len() {
    } else {
        lemma_find_none_when_short(s, pat, from + 1);
    }
}

pub(crate) fn chars_match_at(s: &str, pat: &str, i: usize) -> (r: bool)
    requires
        i + pat@.len() <= s@.len(),
    ensures
        r == matches_at_c(s@, pat@, i as int),
{
    let n: usize = s.unicode_len();
    let m: usize = pat.unicode_len();
    let mut j: usize = 0;
    while j < m
        invariant
            n == s@.len(),
            m == pat@.len(),
            i + pat@.len() <= s@.len(),
            j <= m,
            forall|k: int| 0 <= k < j ==> s@[i + k] == pat@[k],
        decreases m - j,
    {
        if s.get_char(i + j) != pat.get_char(j) {
            proof {
                assert(!matches_at_c(s@, pat@, i as int)) by {
                    if matches_at_c(s@, pat@, i as int) {
                        assert(s@.subrange(i as int, i + pat@.len() as int)[j as int]
                            == pat@[j as int]);
                    }
                }
            }
            return false;
        }
        j = j + 1;
    }
    proof {
        assert(s@.subrange(i as int, i + pat@.len() as int) =~= pat@);
    }
    true
}

/// First occurrence of `pat` in `s` at or after character position `from`.
pub fn find_chars(s: &str, pat: &str, from: usize) -> (r: Option<usize>)
    requires
        pat@.len() >= 1,
    ensures
        match r {
            Some(i) => find_spec_c(s@, pat@, from as int) == Some(i as int),
            None => find_spec_c(s@, pat@, from as int) is None,
        },
{
    let n: usize = s.unicode_len();
    let m: usize = pat.unicode_len();
    if m > n {
        proof {
            lemma_find_none_when_short_c(s@, pat@, from as int);
        }
        return None;
    }
    let last: usize = n - m;
    let mut i: usize = from;
    if i > last {
        return None;
    }
    while i <= last
        invariant
            n == s@.len(),
            m == pat@.len(),
            m >= 1,
            m <= n,
            last == n - m,
            from <= i,
            find_spec_c(s@, pat@, from as int) == find_spec_c(s@, pat@, i as int),
        decreases last + 1 - i,
    {
        if chars_match_at(s, pat, i) {
            return Some(i);
        }
        i = i + 1;
    }
    None
}

proof fn lemma_find_none_when_short_c(s: Seq<char>, pat: Seq<char>, from: int)
    requires
        pat.len() > s.len(),
    ensures
        find_spec_c(s, pat, from) is None,
    decreases s.len() - from,
{
    if from + pat.len() > s.len() {
    } else {
        lemma_find_none_when_short_c(s, pat, from + 1);
    }
}

proof fn lemma_trim_range(s: Seq<u8>, a: int, b: int)
    requires
        0 <= a <= b <= s.len(),
        forall|k: int| 0 <= k < a ==> is_ws_byte(s[k]),
        forall|k: int| b <= k < s.len() ==> is_ws_byte(s[k]),
        a < b ==> !is_ws_byte(s[a]) && !is_ws_byte(s[b - 1]),
    ensures
        trim_spec(s) =~= s.subrange(a, b),
    decreases s.len(),
{
    if s.len() == 0 {
    } else if is_ws_byte(s.first()) {
        if a > 0 {
            lemma_trim_range(s.drop_first(), a - 1, b - 1);
            assert(s.drop_first().subrange(a - 1, b - 1) =~= s.subrange(a, b));
        } else {
            lemma_trim_range(s.drop_first(), 0, 0);
            assert(s.drop_first().subrange(0, 0) =~= s.subrange(a, b));
        }
    } else if is_ws_byte(s.last()) {
        if b < s.len() {
            lemma_trim_range(s.drop_last(), a, b);
            assert(s.drop_last().subrange(a, b) =~= s.subrange(a, b));
        } else {
            assert(is_ws_byte(s[s.len() - 1]));
            assert(a < b);
            assert(!is_ws_byte(s[b - 1]));
        }
    } else {
        assert(a == 0);
        assert(b == s.len());
        assert(s.subrange(0, s.len() as int) =~= s);
    }
}

/// Copy of `s` with leading and trailing ASCII whitespace bytes removed.
pub fn trim_bytes(s: &Vec<u8>) -> (r: Vec<u8>)
    ensures
        r@ == trim_spec(s@),
{
    let mut a: usize = 0;
    while a < s.len() && is_ws_byte_exec(s[a])
        invariant
            a <= s@.len(),
            forall|k: int| 0 <= k < a ==> is_ws_byte(s@[k]),
        decreases s@.len() - a,
    {
        a = a + 1;
    }
    let mut b: usize = s.len();
    while b > a && is_ws_byte_exec(s[b - 1])
        invariant
            a <= b <= s@.len(),
            forall|k: int| 0 <= k < a ==> is_ws_byte(s@[k]),
            forall|k: int| b <= k < s@.len() ==> is_ws_byte(s@[k]),
        decreases b,
    {
        b = b - 1;
    }
    let mut r: Vec<u8> = Vec::new();
    let mut i: usize = a;
    while i < b
        invariant
            a <= i <= b <= s@.len(),
            r@ =~= s@.subrange(a as int, i as int),
        decreases b - i,
    {
        r.push(s[i]);
        proof {
            assert(r@ =~= s@.subrange(a as int, i + 1));
        }
        i = i + 1;
    }
    proof {
        lemma_trim_range(s@, a as int, b as int);
    }
    r
}

/// Character-for-character string equality.
pub fn str_eq(a: &str, b: &str) -> (r: bool)
    ensures
        r == (a@ == b@),
{
    let n: usize = a.unicode_len();
    let m: usize = b.unicode_len();
    if n != m {
        proof {
            assert(a@ != b@) by {
                if a@ == b@ {
                    assert(a@.len() == b@.len());
                }
            }
        }
        return false;
    }
    let mut i: usize = 0;
    while i < n
        invariant
            n == a@.len(),
            n == b@.len(),
            i <= n,
            forall|k: int| 0 <= k < i ==> a@[k] == b@[k],
        decreases n - i,
    {
        if a.get_char(i) != b.get_char(i) {
            return false;
        }
        i = i + 1;
    }
    proof {
        assert(a@ =~= b@);
    }
    true
}

/// Whether `b` is an ASCII whitespace byte.
pub fn is_ws_byte_exec(b: u8) -> (r: bool)
    ensures
        r == is_ws_byte(b),
{
    b == 32 || b == 9 || b == 10 || b == 13 || b == 11 || b == 12
}

/// A successful find starts at or after `from` and is a real match.
pub proof fn lemma_find_some(s: Seq<u8>, pat: Seq<u8>, from: int, i: int)
    requires
        find_spec(s, pat, from) == Some(i),
    ensures
        from <= i,
        matches_at(s, pat, i),
    decreases s.len() + 1 - from,
{
    if from + pat.len() > s.len() {
    } else if matches_at(s, pat, from) {
    } else {
        lemma_find_some(s, pat, from + 1, i);
    }
}

/// A successful character find starts at or after `from` and is a real
/// match.
pub proof fn lemma_find_some_c(s: Seq<char>, pat: Seq<char>, from: int, i: int)
    requires
        find_spec_c(s, pat, from) == Some(i),
    ensures
        from <= i,
        matches_at_c(s, pat, i),
    decreases s.len() + 1 - from,
{
    if from + pat.len() > s.len() {
    } else if matches_at_c(s, pat, from) {
    } else {
        lemma_find_some_c(s, pat, from + 1, i);
    }
}

/// Copy of `s[a..b]`.
pub fn copy_range(s: &Vec<u8>, a: usize, b: usize) -> (r: Vec<u8>)
    requires
        a <= b <= s@.len(),
    ensures
        r@ =~= s@.subrange(a as int, b as int),
{
    let mut r: Vec<u8> = Vec::new();
    let mut i: usize = a;
    while i < b
        invariant
            a <= i <= b <= s@.len(),
            r@ =~= s@.subrange(a as int, i as int),
        decreases b - i,
    {
        r.push(s[i]);
        proof {
            assert(r@ =~= s@.subrange(a as int, i + 1));
        }
        i = i + 1;
    }
    r
}

/// Copy of the first `n` bytes of `s`, or all of it if shorter.
pub fn copy_prefix(s: &Vec<u8>, n: usize) -> (r: Vec<u8>)
    ensures
        r@ =~= if s@.len() <= n {
            s@
        } else {
            s@.take(n as int)
        },
{
    let end: usize = if s.len() <= n {
        s.len()
    } else {
        n
    };
    let r = copy_range(s, 0, end);
    proof {
        if s@.len() <= n {
            assert(s@.subrange(0, end as int) =~= s@);
        } else {
            assert(s@.subrange(0, end as int) =~= s@.take(n as int));
        }
    }
    r
}

proof fn lemma_trim_range_c(s: Seq<char>, a: int, b: int)
    requires
        0 <= a <= b <= s.len(),
        forall|k: int| 0 <= k < a ==> is_ws_char(s[k]),
        forall|k: int| b <= k < s.len() ==> is_ws_char(s[k]),
        a < b ==> !is_ws_char(s[a]) && !is_ws_char(s[b - 1]),
    ensures
        trim_spec_c(s) =~= s.subrange(a, b),
    decreases s.len(),
{
    if s.len() == 0 {
    } else if is_ws_char(s.first()) {
        if a > 0 {
            lemma_trim_range_c(s.drop_first(), a - 1, b - 1);
            assert(s.drop_first().subrange(a - 1, b - 1) =~= s.subrange(a, b));
        } else {
            lemma_trim_range_c(s.drop_first(), 0, 0);
            assert(s.drop_first().subrange(0, 0) =~= s.subrange(a, b));
        }
    } else if is_ws_char(s.last()) {
        if b < s.len() {
            lemma_trim_range_c(s.drop_last(), a, b);
            assert(s.drop_last().subrange(a, b) =~= s.subrange(a, b));
        } else {
            assert(is_ws_char(s[s.len() - 1]));
            assert(a < b);
            assert(!is_ws_char(s[b - 1]));
        }
    } else {
        assert(a == 0);
        assert(b == s.len());
        assert(s.subrange(0, s.len() as int) =~= s);
    }
}

/// Whether `c` is an ASCII whitespace character.
fn is_ws_char_exec(c: char) -> (r: bool)
    ensures
        r == is_ws_char(c),
{
    c == ' ' || c == '\t' || c == '\n' || c == '\r'
}

/// Copy of `s` with leading and trailing ASCII whitespace characters
/// removed.
pub fn trim_chars(s: &str) -> (r: String)
    ensures
        r@ == trim_spec_c(s@),
{
    let n: usize = s.unicode_len();
    let mut a: usize = 0;
    while a < n && is_ws_char_exec(s.get_char(a))
        invariant
            n == s@.len(),
            a <= n,
            forall|k: int| 0 <= k < a ==> is_ws_char(s@[k]),
        decreases n - a,
    {
        a = a + 1;
    }
    let mut b: usize = n;
    while b > a && is_ws_char_exec(s.get_char(b - 1))
        invariant
            n == s@.len(),
            a <= b <= n,
            forall|k: int| 0 <= k < a ==> is_ws_char(s@[k]),
            forall|k: int| b <= k < n ==> is_ws_char(s@[k]),
        decreases b,
    {
        b = b - 1;
    }
    let piece = s.substring_char(a, b);
    proof {
        lemma_trim_range_c(s@, a as int, b as int);
    }
    String::from_str(piece)
}

} // verus!
