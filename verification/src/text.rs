//! Character-level string helpers: blankness, substring search, prefix
//! tests, trimming, and locating separators in paths and file names.

use vstd::prelude::*;
use vstd::string::*;

verus! {

/// The whitespace characters this library treats as blank.
pub open spec fn is_space_char(c: char) -> bool {
    c == ' ' || c == '\t' || c == '\n' || c == '\r'
}

/// Every character of `s` is whitespace (true of the empty sequence).
pub open spec fn all_space(s: Seq<char>) -> bool {
    forall|i: int| 0 <= i < s.len() ==> is_space_char(#[trigger] s[i])
}

/// A string is blank when it is empty or holds only whitespace.
pub fn is_blank(s: &str) -> (b: bool)
    ensures
        b == all_space(s@),
{
    let n = s.unicode_len();
    let mut i: usize = 0;
    while i < n
        invariant
            n == s@.len(),
            0 <= i <= n,
            forall|k: int| 0 <= k < i ==> is_space_char(#[trigger] s@[k]),
        decreases n - i,
    {
        let c = s.get_char(i);
        if !(c == ' ' || c == '\t' || c == '\n' || c == '\r') {
            assert(!is_space_char(s@[i as int]));
            return false;
        }
        i = i + 1;
    }
    true
}

/// `needle` occurs contiguously inside `hay`.
pub open spec fn is_substring(hay: Seq<char>, needle: Seq<char>) -> bool {
    exists|k: int|
        0 <= k && k + needle.len() <= hay.len() && #[trigger] hay.subrange(
            k,
            k + needle.len() as int,
        ) =~= needle
}

/// Substring search by direct character comparison.
pub fn contains_sub(hay: &str, needle: &str) -> (b: bool)
    ensures
        b == is_substring(hay@, needle@),
{
    let hn = hay.unicode_len();
    let nn = needle.unicode_len();
    if nn > hn {
        assert(!is_substring(hay@, needle@));
        return false;
    }
    if nn == 0 {
        assert(hay@.subrange(0, 0 + needle@.len() as int) =~= needle@);
        return true;
    }
    let mut k: usize = 0;
    while k <= hn - nn
        invariant
            hn == hay@.len(),
            nn == needle@.len(),
            1 <= nn <= hn,
            0 <= k <= hn - nn + 1,
            forall|k2: int|
                0 <= k2 < k ==> #[trigger] hay@.subrange(k2, k2 + needle@.len() as int)
                    !~= needle@,
        decreases hn - nn - k + 1,
    {
        let mut j: usize = 0;
        let mut matched = true;
        while j < nn
            invariant
                hn == hay@.len(),
                nn == needle@.len(),
                0 <= k <= hn - nn,
                0 <= j <= nn,
                matched ==> forall|t: int| 0 <= t < j ==> hay@[k + t] == #[trigger] needle@[t],
                !matched ==> hay@.subrange(k as int, k + needle@.len() as int) !~= needle@,
            decreases nn - j,
        {
            if hay.get_char(k + j) != needle.get_char(j) {
                matched = false;
                assert(hay@.subrange(k as int, k + needle@.len() as int)[j as int]
                    != needle@[j as int]);
                j = nn;
            } else {
                j = j + 1;
            }
        }
        if matched {
            assert(hay@.subrange(k as int, k + needle@.len() as int) =~= needle@);
            return true;
        }
        k = k + 1;
    }
    assert forall|k2: int|
        0 <= k2 && k2 + needle@.len() <= hay@.len() implies #[trigger] hay@.subrange(
        k2,
        k2 + needle@.len() as int,
    ) !~= needle@ by {
        assert(k2 < k);
    }
    false
}

/// `prefix` is an initial run of `s`.
pub fn has_prefix(s: &str, prefix: &str) -> (b: bool)
    ensures
        b == prefix@.is_prefix_of(s@),
{
    let sn = s.unicode_len();
    let pn = prefix.unicode_len();
    if pn > sn {
        assert(!prefix@.is_prefix_of(s@));
        return false;
    }
    let mut j: usize = 0;
    while j < pn
        invariant
            sn == s@.len(),
            pn == prefix@.len(),
            pn <= sn,
            0 <= j <= pn,
            forall|t: int| 0 <= t < j ==> s@[t] == #[trigger] prefix@[t],
        decreases pn - j,
    {
        if s.get_char(j) != prefix.get_char(j) {
            assert(s@.subrange(0, prefix@.len() as int)[j as int] != prefix@[j as int]);
            return false;
        }
        j = j + 1;
    }
    assert(prefix@ =~= s@.subrange(0, prefix@.len() as int));
    true
}

/// Joins two pieces of text.
pub fn str_concat(a: &str, b: &str) -> (r: String)
    ensures
        r@ == a@ + b@,
{
    let mut s = a.to_owned();
    s.append(b);
    s
}

/// Compares two pieces of text character for character.
pub fn str_eq(a: &str, b: &str) -> (r: bool)
    ensures
        r == (a@ == b@),
{
    let sa = a.to_owned();
    let sb = b.to_owned();
    sa.eq(&sb)
}

/// Relies on `String::push`, which appends one character.
#[verifier::external_body]
pub fn push_char(s: &mut String, c: char)
    ensures
        final(s)@ == old(s)@.push(c),
{
    s.push(c);
}

/// Index of the last occurrence of `c` in `s`, or -1 when `c` is absent.
pub open spec fn last_ix_of(s: Seq<char>, c: char) -> int
    decreases s.len(),
{
    if s.len() == 0 {
        -1
    } else if s[s.len() - 1] == c {
        s.len() - 1
    } else {
        last_ix_of(s.drop_last(), c)
    }
}

/// What `last_ix_of` yields: either -1 and `c` is absent, or the greatest
/// index holding `c`.
pub proof fn lemma_last_ix_of(s: Seq<char>, c: char)
    ensures
        -1 <= last_ix_of(s, c) < s.len(),
        last_ix_of(s, c) == -1 ==> forall|i: int| 0 <= i < s.len() ==> s[i] != c,
        last_ix_of(s, c) >= 0 ==> s[last_ix_of(s, c)] == c,
        forall|i: int| last_ix_of(s, c) < i < s.len() ==> s[i] != c,
    decreases s.len(),
{
    if s.len() > 0 && s[s.len() - 1] != c {
        lemma_last_ix_of(s.drop_last(), c);
        assert forall|i: int| 0 <= i < s.len() - 1 implies s.drop_last()[i] == s[i] by {}
    }
}

/// Finds the last occurrence of `c`, reported as `r`: -1 when absent,
/// else the index.
pub fn find_last(s: &str, c: char) -> (r: Option<usize>)
    ensures
        r is None ==> last_ix_of(s@, c) == -1,
        r matches Some(i) ==> last_ix_of(s@, c) == i as int,
{
    let n = s.unicode_len();
    let mut i: usize = n;
    proof {
        lemma_last_ix_of(s@, c);
    }
    while i > 0
        invariant
            n == s@.len(),
            0 <= i <= n,
            forall|t: int| i <= t < n ==> s@[t] != c,
            -1 <= last_ix_of(s@, c) < s@.len(),
            last_ix_of(s@, c) == -1 ==> forall|t: int| 0 <= t < s@.len() ==> s@[t] != c,
            last_ix_of(s@, c) >= 0 ==> s@[last_ix_of(s@, c)] == c,
            forall|t: int| last_ix_of(s@, c) < t < s@.len() ==> s@[t] != c,
        decreases i,
    {
        let ch = s.get_char(i - 1);
        if ch == c {
            assert(last_ix_of(s@, c) == i - 1);
            return Some(i - 1);
        }
        i = i - 1;
    }
    assert(last_ix_of(s@, c) == -1);
    None
}

/// Appending text free of `c` does not move the last occurrence of `c`.
pub proof fn lemma_last_ix_of_append_free(s: Seq<char>, t: Seq<char>, c: char)
    requires
        forall|i: int| 0 <= i < t.len() ==> t[i] != c,
    ensures
        last_ix_of(s + t, c) == last_ix_of(s, c),
    decreases t.len(),
{
    if t.len() == 0 {
        assert(s + t =~= s);
    } else {
        let st = s + t;
        assert(st.last() == t.last());
        assert(st.last() != c);
        assert(st.drop_last() =~= s + t.drop_last());
        lemma_last_ix_of_append_free(s, t.drop_last(), c);
    }
}

/// Count of whitespace characters that open `s`.
pub open spec fn lead_spaces(s: Seq<char>) -> int
    decreases s.len(),
{
    if s.len() == 0 {
        0
    } else if is_space_char(s[0]) {
        1 + lead_spaces(s.drop_first())
    } else {
        0
    }
}

/// Count of whitespace characters that close `s`.
pub open spec fn trail_spaces(s: Seq<char>) -> int
    decreases s.len(),
{
    if s.len() == 0 {
        0
    } else if is_space_char(s[s.len() - 1]) {
        1 + trail_spaces(s.drop_last())
    } else {
        0
    }
}

/// `s` with its leading and trailing whitespace removed.
pub open spec fn trim_spec(s: Seq<char>) -> Seq<char> {
    if all_space(s) {
        Seq::empty()
    } else {
        s.subrange(lead_spaces(s), s.len() - trail_spaces(s))
    }
}

/// The run of leading whitespace ends at the first non-blank character.
pub proof fn lemma_lead_spaces(s: Seq<char>)
    ensures
        0 <= lead_spaces(s) <= s.len(),
        forall|i: int| 0 <= i < lead_spaces(s) ==> is_space_char(#[trigger] s[i]),
        lead_spaces(s) < s.len() ==> !is_space_char(s[lead_spaces(s)]),
    decreases s.len(),
{
    if s.len() > 0 && is_space_char(s[0]) {
        lemma_lead_spaces(s.drop_first());
        assert forall|i: int| 0 <= i < lead_spaces(s) implies is_space_char(#[trigger] s[i]) by {
            if i >= 1 {
                assert(is_space_char(s.drop_first()[i - 1]));
                assert(s.drop_first()[i - 1] == s[i]);
            }
        }
    }
}

/// The run of trailing whitespace starts after the last non-blank character.
pub proof fn lemma_trail_spaces(s: Seq<char>)
    ensures
        0 <= trail_spaces(s) <= s.len(),
        forall|i: int| s.len() - trail_spaces(s) <= i < s.len() ==> is_space_char(#[trigger] s[i]),
        trail_spaces(s) < s.len() ==> !is_space_char(s[s.len() - trail_spaces(s) - 1]),
    decreases s.len(),
{
    if s.len() > 0 && is_space_char(s[s.len() - 1]) {
        lemma_trail_spaces(s.drop_last());
        assert forall|i: int|
            s.len() - trail_spaces(s) <= i < s.len() implies is_space_char(#[trigger] s[i]) by {
            if i < s.len() - 1 {
                assert(is_space_char(s.drop_last()[i]));
            }
        }
    }
}

/// Removes leading and trailing whitespace.
pub fn trim_str(s: &str) -> (r: String)
    ensures
        r@ == trim_spec(s@),
{
    let n = s.unicode_len();
    proof {
        lemma_lead_spaces(s@);
        lemma_trail_spaces(s@);
    }
    let mut a: usize = 0;
    while a < n
        invariant_except_break
            n == s@.len(),
            0 <= a <= n,
            forall|i: int| 0 <= i < a ==> is_space_char(#[trigger] s@[i]),
        ensures
            n == s@.len(),
            0 <= a <= n,
            forall|i: int| 0 <= i < a ==> is_space_char(#[trigger] s@[i]),
            a < n ==> !is_space_char(s@[a as int]),
        decreases n - a,
    {
        let c = s.get_char(a);
        if !(c == ' ' || c == '\t' || c == '\n' || c == '\r') {
            assert(!is_space_char(s@[a as int]));
            break ;
        }
        a = a + 1;
    }
    if a == n {
        assert(all_space(s@));
        return String::new();
    }
    assert(!all_space(s@));
    assert(a as int == lead_spaces(s@)) by {
        if (a as int) < lead_spaces(s@) {
            assert(!is_space_char(s@[a as int]));
        }
        if (a as int) > lead_spaces(s@) {
            assert(is_space_char(s@[lead_spaces(s@)]));
        }
    }
    let mut b: usize = n;
    while b > a
        invariant_except_break
            n == s@.len(),
            0 <= a < n,
            a <= b <= n,
            !is_space_char(s@[a as int]),
            forall|i: int| b <= i < n ==> is_space_char(#[trigger] s@[i]),
        ensures
            n == s@.len(),
            0 <= a < n,
            a <= b <= n,
            !is_space_char(s@[a as int]),
            forall|i: int| b <= i < n ==> is_space_char(#[trigger] s@[i]),
            b > a ==> !is_space_char(s@[b - 1]),
        decreases b,
    {
        let c = s.get_char(b - 1);
        if !(c == ' ' || c == '\t' || c == '\n' || c == '\r') {
            assert(!is_space_char(s@[b - 1]));
            break ;
        }
        b = b - 1;
    }
    assert(b > a) by {
        if b == a {
            assert(is_space_char(s@[a as int]));
        }
    }
    assert(n - b as int == trail_spaces(s@)) by {
        if n - (b as int) < trail_spaces(s@) {
            assert(is_space_char(s@[b - 1]));
        }
        if n - (b as int) > trail_spaces(s@) {
            assert(!is_space_char(s@[s@.len() - trail_spaces(s@) - 1]));
        }
    }
    let r = s.substring_char(a, b);
    r.to_owned()
}

/// The character that writes the decimal digit `d`.
pub open spec fn digit_char(d: int) -> char {
    if d == 0 {
        '0'
    } else if d == 1 {
        '1'
    } else if d == 2 {
        '2'
    } else if d == 3 {
        '3'
    } else if d == 4 {
        '4'
    } else if d == 5 {
        '5'
    } else if d == 6 {
        '6'
    } else if d == 7 {
        '7'
    } else if d == 8 {
        '8'
    } else {
        '9'
    }
}

/// The decimal writing of `n`, most significant digit first.
pub open spec fn dec_str(n: int) -> Seq<char>
    decreases n,
{
    if n < 10 {
        seq![digit_char(n)]
    } else {
        dec_str(n / 10).push(digit_char(n % 10))
    }
}

/// Writes `n` in decimal.
pub fn u64_to_dec(n: u64) -> (r: String)
    ensures
        r@ == dec_str(n as int),
{
    let mut digits: Vec<char> = Vec::new();
    let mut x: u64 = n;
    while x >= 10
        invariant
            dec_str(n as int) =~= dec_str(x as int) + digits@.reverse(),
        decreases x,
    {
        let d = x % 10;
        let c: char = if d == 0 {
            '0'
        } else if d == 1 {
            '1'
        } else if d == 2 {
            '2'
        } else if d == 3 {
            '3'
        } else if d == 4 {
            '4'
        } else if d == 5 {
            '5'
        } else if d == 6 {
            '6'
        } else if d == 7 {
            '7'
        } else if d == 8 {
            '8'
        } else {
            '9'
        };
        assert(c == digit_char(x as int % 10));
        let ghost old_digits = digits@;
        let ghost old_x = x as int;
        digits.push(c);
        x = x / 10;
        proof {
            assert(digits@.reverse() =~= seq![digit_char(old_x % 10)] + old_digits.reverse());
            assert(dec_str(old_x) =~= dec_str(old_x / 10).push(digit_char(old_x % 10)));
            assert(dec_str(old_x) + old_digits.reverse() =~= dec_str(x as int)
                + digits@.reverse());
        }
    }
    let d0: char = if x == 0 {
        '0'
    } else if x == 1 {
        '1'
    } else if x == 2 {
        '2'
    } else if x == 3 {
        '3'
    } else if x == 4 {
        '4'
    } else if x == 5 {
        '5'
    } else if x == 6 {
        '6'
    } else if x == 7 {
        '7'
    } else if x == 8 {
        '8'
    } else {
        '9'
    };
    assert(d0 == digit_char(x as int));
    digits.push(d0);
    assert(dec_str(n as int) =~= digits@.reverse());
    let mut r = String::new();
    let mut i: usize = digits.len();
    while i > 0
        invariant
            i <= digits@.len(),
            r@ =~= digits@.skip(i as int).reverse(),
        decreases i,
    {
        push_char(&mut r, digits[i - 1]);
        i = i - 1;
        assert(r@ =~= digits@.skip(i as int).reverse());
    }
    assert(r@ =~= digits@.reverse());
    r
}

} // verus!
