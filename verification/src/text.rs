//! Small verified text utilities shared by the rest of the library:
//! first-occurrence search, comma splitting, trimming, decimal rendering.

use vstd::prelude::*;

verus! {

/// Relies on String::push: appends exactly the one given character.
#[verifier::external_body]
pub fn push_char(s: &mut String, c: char)
    ensures
        final(s)@ == old(s)@ + seq![c],
{
    s.push(c);
}

pub fn char_to_string(c: char) -> (r: String)
    ensures
        r@ == seq![c],
{
    let mut s = String::new();
    push_char(&mut s, c);
    proof {
        assert(s@ =~= seq![c]);
    }
    s
}

pub fn str_eq(a: &str, b: &str) -> (r: bool)
    ensures
        r == (a@ == b@),
{
    let sa = a.to_owned();
    let sb = b.to_owned();
    sa == sb
}

/// Index of the first occurrence of `c` in `s`, or -1 if there is none.
pub open spec fn find_char(s: Seq<char>, c: char) -> int
    decreases s.len(),
{
    if s.len() == 0 {
        -1
    } else if s[0] == c {
        0
    } else if find_char(s.drop_first(), c) < 0 {
        -1
    } else {
        find_char(s.drop_first(), c) + 1
    }
}

pub proof fn lemma_find_char(s: Seq<char>, c: char)
    ensures
        find_char(s, c) == -1 || (0 <= find_char(s, c) < s.len()),
        find_char(s, c) >= 0 ==> s[find_char(s, c)] == c,
        forall|j: int| 0 <= j < s.len() && s[j] == c ==> find_char(s, c) >= 0,
        forall|j: int| 0 <= j && (find_char(s, c) == -1 || j < find_char(s, c)) && j < s.len()
            ==> s[j] != c,
    decreases s.len(),
{
    if s.len() > 0 && s[0] != c {
        lemma_find_char(s.drop_first(), c);
        assert(forall|j: int| 1 <= j < s.len() ==> s[j] == s.drop_first()[j - 1]);
    }
}

/// The first occurrence found by the loop below agrees with `find_char`.
pub fn find_char_str(s: &str, c: char) -> (r: Option<usize>)
    ensures
        match r {
            Some(i) => i == find_char(s@, c),
            None => find_char(s@, c) == -1,
        },
{
    let n = s.unicode_len();
    let mut i: usize = 0;
    proof {
        lemma_find_char(s@, c);
    }
    while i < n
        invariant
            n == s@.len(),
            0 <= i <= n,
            forall|j: int| 0 <= j < i ==> s@[j] != c,
            find_char(s@, c) == -1 || (0 <= find_char(s@, c) < s@.len()),
            find_char(s@, c) >= 0 ==> s@[find_char(s@, c)] == c,
            forall|j: int| 0 <= j < s@.len() && s@[j] == c ==> find_char(s@, c) >= 0,
            forall|j: int|
                0 <= j && (find_char(s@, c) == -1 || j < find_char(s@, c)) && j < s@.len()
                    ==> s@[j] != c,
        decreases n - i,
    {
        if s.get_char(i) == c {
            return Some(i);
        }
        i += 1;
    }
    None
}

/// Index of the last occurrence of `c` in `s`, or -1 if there is none.
pub open spec fn rfind_char(s: Seq<char>, c: char) -> int
    decreases s.len(),
{
    if s.len() == 0 {
        -1
    } else if s[s.len() - 1] == c {
        s.len() - 1
    } else {
        rfind_char(s.drop_last(), c)
    }
}

pub proof fn lemma_rfind_char(s: Seq<char>, c: char)
    ensures
        rfind_char(s, c) == -1 || (0 <= rfind_char(s, c) < s.len()),
        rfind_char(s, c) >= 0 ==> s[rfind_char(s, c)] == c,
        forall|j: int| rfind_char(s, c) < j < s.len() ==> s[j] != c,
        rfind_char(s, c) == -1 ==> forall|j: int| 0 <= j < s.len() ==> s[j] != c,
    decreases s.len(),
{
    if s.len() > 0 && s[s.len() - 1] != c {
        lemma_rfind_char(s.drop_last(), c);
        assert(forall|j: int| 0 <= j < s.len() - 1 ==> s[j] == s.drop_last()[j]);
    }
}

pub fn rfind_char_str(s: &str, c: char) -> (r: Option<usize>)
    ensures
        match r {
            Some(i) => i == rfind_char(s@, c),
            None => rfind_char(s@, c) == -1,
        },
{
    let n = s.unicode_len();
    let mut i: usize = n;
    proof {
        lemma_rfind_char(s@, c);
    }
    while i > 0
        invariant
            n == s@.len(),
            0 <= i <= n,
            forall|j: int| i <= j < n ==> s@[j] != c,
            rfind_char(s@, c) == -1 || (0 <= rfind_char(s@, c) < s@.len()),
            rfind_char(s@, c) >= 0 ==> s@[rfind_char(s@, c)] == c,
            forall|j: int| rfind_char(s@, c) < j < s@.len() ==> s@[j] != c,
            rfind_char(s@, c) == -1 ==> forall|j: int| 0 <= j < s@.len() ==> s@[j] != c,
        decreases i,
    {
        if s.get_char(i - 1) == c {
            return Some(i - 1);
        }
        i -= 1;
    }
    None
}

/// The segments of `s` between its commas, in order; a string without commas
/// is one segment, and every comma separates two (possibly empty) segments.
pub open spec fn split_commas(s: Seq<char>) -> Seq<Seq<char>>
    decreases s.len(),
{
    let i = find_char(s, ',');
    if 0 <= i < s.len() {
        seq![s.subrange(0, i)] + split_commas(s.subrange(i + 1, s.len() as int))
    } else {
        seq![s]
    }
}

pub fn split_commas_str(s: &str) -> (r: Vec<String>)
    ensures
        r@.map_values(|x: String| x@) == split_commas(s@),
    decreases s@.len(),
{
    proof {
        lemma_find_char(s@, ',');
    }
    match find_char_str(s, ',') {
        Option::None => {
            let mut out: Vec<String> = Vec::new();
            out.push(s.to_owned());
            proof {
                assert(out@.map_values(|x: String| x@) =~= split_commas(s@));
            }
            out
        },
        Option::Some(i) => {
            let n = s.unicode_len();
            let head = s.substring_char(0, i).to_owned();
            let tail = s.substring_char(i + 1, n);
            let mut out = split_commas_str(tail);
            out.insert(0, head);
            proof {
                assert(out@.map_values(|x: String| x@) =~= split_commas(s@));
            }
            out
        },
    }
}

pub open spec fn is_wspace(c: char) -> bool {
    c == ' ' || c == '\t' || c == '\n' || c == '\r'
}

/// `s` with leading whitespace removed.
pub open spec fn trim_start(s: Seq<char>) -> Seq<char>
    decreases s.len(),
{
    if s.len() > 0 && is_wspace(s[0]) {
        trim_start(s.drop_first())
    } else {
        s
    }
}

/// `s` with trailing whitespace removed.
pub open spec fn trim_end(s: Seq<char>) -> Seq<char>
    decreases s.len(),
{
    if s.len() > 0 && is_wspace(s[s.len() - 1]) {
        trim_end(s.drop_last())
    } else {
        s
    }
}

/// `s` with whitespace removed on both sides.
pub open spec fn trim_spec(s: Seq<char>) -> Seq<char> {
    trim_end(trim_start(s))
}

/// How many whitespace characters `s` starts with.
pub open spec fn count_leading_ws(s: Seq<char>) -> int
    decreases s.len(),
{
    if s.len() > 0 && is_wspace(s[0]) {
        1 + count_leading_ws(s.drop_first())
    } else {
        0
    }
}

proof fn lemma_trim_start_bounds(s: Seq<char>)
    ensures
        0 <= count_leading_ws(s) <= s.len(),
        trim_start(s) == s.subrange(count_leading_ws(s), s.len() as int),
        forall|j: int| 0 <= j < count_leading_ws(s) ==> is_wspace(s[j]),
        count_leading_ws(s) < s.len() ==> !is_wspace(s[count_leading_ws(s)]),
    decreases s.len(),
{
    if s.len() > 0 && is_wspace(s[0]) {
        lemma_trim_start_bounds(s.drop_first());
        assert(forall|j: int| 1 <= j < s.len() ==> s[j] == s.drop_first()[j - 1]);
        let a0 = count_leading_ws(s.drop_first());
        assert(s.drop_first().subrange(a0, s.drop_first().len() as int) =~= s.subrange(
            a0 + 1,
            s.len() as int,
        ));
        assert(forall|j: int| 0 <= j < a0 + 1 ==> is_wspace(s[j]));
    } else {
        assert(trim_start(s) =~= s.subrange(0, s.len() as int));
    }
}

/// Where the trailing whitespace of `s` begins.
pub open spec fn end_before_ws(s: Seq<char>) -> int
    decreases s.len(),
{
    if s.len() > 0 && is_wspace(s[s.len() - 1]) {
        end_before_ws(s.drop_last())
    } else {
        s.len() as int
    }
}

proof fn lemma_trim_end_bounds(s: Seq<char>)
    ensures
        0 <= end_before_ws(s) <= s.len(),
        trim_end(s) == s.subrange(0, end_before_ws(s)),
        forall|j: int| end_before_ws(s) <= j < s.len() ==> is_wspace(s[j]),
        end_before_ws(s) > 0 ==> !is_wspace(s[end_before_ws(s) - 1]),
    decreases s.len(),
{
    if s.len() > 0 && is_wspace(s[s.len() - 1]) {
        lemma_trim_end_bounds(s.drop_last());
        assert(forall|j: int| 0 <= j < s.len() - 1 ==> s[j] == s.drop_last()[j]);
        let b0 = end_before_ws(s.drop_last());
        assert(s.drop_last().subrange(0, b0) =~= s.subrange(0, b0));
    } else {
        assert(trim_end(s) =~= s.subrange(0, s.len() as int));
    }
}

/// Whitespace-trimming on both sides, as `trim_spec` describes.
pub fn trim(s: &str) -> (r: &str)
    ensures
        r@ == trim_spec(s@),
{
    let n = s.unicode_len();
    let mut a: usize = 0;
    while a < n && is_wspace_exec(s.get_char(a))
        invariant
            n == s@.len(),
            0 <= a <= n,
            forall|j: int| 0 <= j < a ==> is_wspace(s@[j]),
        decreases n - a,
    {
        a += 1;
    }
    let mut b: usize = n;
    while b > a && is_wspace_exec(s.get_char(b - 1))
        invariant
            n == s@.len(),
            0 <= a <= b <= n,
            forall|j: int| 0 <= j < a ==> is_wspace(s@[j]),
            a < n ==> !is_wspace(s@[a as int]),
            forall|j: int| b <= j < n ==> is_wspace(s@[j]),
        decreases b,
    {
        b -= 1;
    }
    let r = s.substring_char(a, b);
    proof {
        lemma_trim_start_bounds(s@);
        let a0 = count_leading_ws(s@);
        // The loop's stopping point is the same split point.
        assert(a0 == a) by {
            if a0 < a {
                assert(is_wspace(s@[a0]));
            }
            if a < a0 {
                assert(is_wspace(s@[a as int]));
            }
        }
        let t = trim_start(s@);
        lemma_trim_end_bounds(t);
        let b0 = end_before_ws(t);
        assert(forall|j: int| 0 <= j < t.len() ==> t[j] == s@[j + a]);
        assert(b0 == b - a) by {
            if b0 < b - a {
                assert(!is_wspace(s@[b - 1]));
                assert(is_wspace(t[b - a - 1]));
            }
            if b - a < b0 {
                assert(!is_wspace(t[b0 - 1]));
                assert(is_wspace(s@[b0 + a - 1]));
            }
        }
        assert(r@ =~= trim_spec(s@));
    }
    r
}

pub fn is_wspace_exec(c: char) -> (r: bool)
    ensures
        r == is_wspace(c),
{
    c == ' ' || c == '\t' || c == '\n' || c == '\r'
}

/// `s` with every leading `.` removed.
pub open spec fn strip_leading_dots(s: Seq<char>) -> Seq<char>
    decreases s.len(),
{
    if s.len() > 0 && s[0] == '.' {
        strip_leading_dots(s.drop_first())
    } else {
        s
    }
}

/// How many `.` characters `s` starts with.
pub open spec fn count_leading_dots(s: Seq<char>) -> int
    decreases s.len(),
{
    if s.len() > 0 && s[0] == '.' {
        1 + count_leading_dots(s.drop_first())
    } else {
        0
    }
}

proof fn lemma_strip_dots_bounds(s: Seq<char>)
    ensures
        0 <= count_leading_dots(s) <= s.len(),
        strip_leading_dots(s) == s.subrange(count_leading_dots(s), s.len() as int),
        forall|j: int| 0 <= j < count_leading_dots(s) ==> s[j] == '.',
        count_leading_dots(s) < s.len() ==> s[count_leading_dots(s)] != '.',
    decreases s.len(),
{
    if s.len() > 0 && s[0] == '.' {
        lemma_strip_dots_bounds(s.drop_first());
        assert(forall|j: int| 1 <= j < s.len() ==> s[j] == s.drop_first()[j - 1]);
        let a0 = count_leading_dots(s.drop_first());
        assert(s.drop_first().subrange(a0, s.drop_first().len() as int) =~= s.subrange(
            a0 + 1,
            s.len() as int,
        ));
        assert(forall|j: int| 0 <= j < a0 + 1 ==> s[j] == '.');
    } else {
        assert(strip_leading_dots(s) =~= s.subrange(0, s.len() as int));
    }
}

pub fn strip_dots(s: &str) -> (r: &str)
    ensures
        r@ == strip_leading_dots(s@),
{
    let n = s.unicode_len();
    let mut a: usize = 0;
    while a < n && s.get_char(a) == '.'
        invariant
            n == s@.len(),
            0 <= a <= n,
            forall|j: int| 0 <= j < a ==> s@[j] == '.',
        decreases n - a,
    {
        a += 1;
    }
    let r = s.substring_char(a, n);
    proof {
        lemma_strip_dots_bounds(s@);
        let a0 = count_leading_dots(s@);
        assert(a0 == a) by {
            if a0 < a {
                assert(s@[a0] == '.');
            }
            if a < a0 {
                assert(s@[a as int] == '.');
            }
        }
        assert(r@ =~= strip_leading_dots(s@));
    }
    r
}

pub open spec fn dec_digit(d: nat) -> char {
    if d == 0 {
        '0'
    } else if d == 1 {
        '1'
    } else if d == 2 {
        '2'
    } else if d == 3 {
        '3'
    } else if d == 4 {
        '4'
    } else if d == 5 {
        '5'
    } else if d == 6 {
        '6'
    } else if d == 7 {
        '7'
    } else if d == 8 {
        '8'
    } else {
        '9'
    }
}

/// The usual decimal rendering of `n`, without leading zeros.
pub open spec fn dec_str(n: nat) -> Seq<char>
    decreases n,
{
    if n < 10 {
        seq![dec_digit(n)]
    } else {
        dec_str(n / 10) + seq![dec_digit(n % 10)]
    }
}

fn dec_digit_exec(d: u64) -> (r: char)
    requires
        d < 10,
    ensures
        r == dec_digit(d as nat),
{
    if d == 0 {
        '0'
    } else if d == 1 {
        '1'
    } else if d == 2 {
        '2'
    } else if d == 3 {
        '3'
    } else if d == 4 {
        '4'
    } else if d == 5 {
        '5'
    } else if d == 6 {
        '6'
    } else if d == 7 {
        '7'
    } else if d == 8 {
        '8'
    } else {
        '9'
    }
}

pub fn u64_to_dec(n: u64) -> (r: String)
    ensures
        r@ == dec_str(n as nat),
    decreases n,
{
    if n < 10 {
        char_to_string(dec_digit_exec(n))
    } else {
        let mut s = u64_to_dec(n / 10);
        push_char(&mut s, dec_digit_exec(n % 10));
        s
    }
}

/// Prefix test, character for character.
pub fn starts_with(s: &str, p: &str) -> (r: bool)
    ensures
        r == (s@.len() >= p@.len() && s@.subrange(0, p@.len() as int) == p@),
{
    let n = s.unicode_len();
    let m = p.unicode_len();
    if m > n {
        return false;
    }
    let mut k: usize = 0;
    while k < m
        invariant
            n == s@.len(),
            m == p@.len(),
            m <= n,
            0 <= k <= m,
            forall|t: int| 0 <= t < k ==> s@[t] == p@[t],
        decreases m - k,
    {
        if s.get_char(k) != p.get_char(k) {
            proof {
                if s@.subrange(0, p@.len() as int) == p@ {
                    assert(s@.subrange(0, p@.len() as int)[k as int] == s@[k as int]);
                }
            }
            return false;
        }
        k += 1;
    }
    proof {
        assert(s@.subrange(0, p@.len() as int) =~= p@);
    }
    true
}

/// `pat` occurs in `s` starting at index `i`.
pub open spec fn has_sub_at(s: Seq<char>, pat: Seq<char>, i: int) -> bool {
    0 <= i && i + pat.len() <= s.len() && s.subrange(i, i + pat.len() as int) == pat
}

pub open spec fn contains_seq(s: Seq<char>, pat: Seq<char>) -> bool {
    exists|i: int| has_sub_at(s, pat, i)
}

/// Substring search, against `contains_seq`.
pub fn contains_sub(s: &str, pat: &str) -> (r: bool)
    ensures
        r == contains_seq(s@, pat@),
{
    let n = s.unicode_len();
    let m = pat.unicode_len();
    if m > n {
        proof {
            assert(forall|i: int| !has_sub_at(s@, pat@, i));
        }
        return false;
    }
    let mut i: usize = 0;
    while i <= n - m
        invariant
            n == s@.len(),
            m == pat@.len(),
            m <= n,
            0 <= i <= n - m + 1,
            forall|j: int| 0 <= j < i ==> !has_sub_at(s@, pat@, j),
        decreases n - m - i + 1,
    {
        let mut k: usize = 0;
        let mut all_eq = true;
        while k < m
            invariant
                n == s@.len(),
                m == pat@.len(),
                0 <= i <= n - m,
                0 <= k <= m,
                all_eq <==> (forall|t: int| 0 <= t < k ==> s@[i + t] == pat@[t]),
            decreases m - k,
        {
            if s.get_char(i + k) != pat.get_char(k) {
                all_eq = false;
                proof {
                    assert(s@[i + k] != pat@[k as int]);
                }
                k = m;
            } else {
                k += 1;
            }
        }
        if all_eq {
            proof {
                assert(s@.subrange(i as int, i + pat@.len() as int) =~= pat@);
                assert(has_sub_at(s@, pat@, i as int));
            }
            return true;
        }
        proof {
            if has_sub_at(s@, pat@, i as int) {
                assert forall|t: int| 0 <= t < m implies s@[i + t] == pat@[t] by {
                    assert(s@.subrange(i as int, i + pat@.len() as int)[t] == s@[i + t]);
                }
            }
        }
        i += 1;
    }
    proof {
        assert(forall|j: int| has_sub_at(s@, pat@, j) ==> 0 <= j <= n - m);
    }
    false
}

} // verus!
