//! Verified helpers on strings: searching, splitting, and formatting.

use vstd::prelude::*;
use vstd::string::StrSliceExecFns;
use vstd::string::StringExecFns;

verus! {

/// Index of the first occurrence of `c` in `s`, or -1 when absent.
pub open spec fn first_index_of(s: Seq<char>, c: char) -> int
    decreases s.len(),
{
    if s.len() == 0 {
        -1
    } else if s[0] == c {
        0
    } else if first_index_of(s.drop_first(), c) < 0 {
        -1
    } else {
        first_index_of(s.drop_first(), c) + 1
    }
}

pub proof fn lemma_first_index_of(s: Seq<char>, c: char)
    ensures
        first_index_of(s, c) == -1 ==> forall|j: int| 0 <= j < s.len() ==> s[j] != c,
        first_index_of(s, c) != -1 ==> {
            &&& 0 <= first_index_of(s, c) < s.len()
            &&& s[first_index_of(s, c)] == c
            &&& forall|j: int| 0 <= j < first_index_of(s, c) ==> s[j] != c
        },
    decreases s.len(),
{
    if s.len() > 0 && s[0] != c {
        lemma_first_index_of(s.drop_first(), c);
        assert(forall|j: int| 1 <= j < s.len() ==> s[j] == s.drop_first()[j - 1]);
    }
}

/// Finds the first occurrence of `c` in `s`.
pub fn find_char(s: &str, c: char) -> (r: Option<usize>)
    ensures
        match r {
            Some(i) => {
                &&& i as int == first_index_of(s@, c)
                &&& i < s@.len()
                &&& s@[i as int] == c
                &&& forall|j: int| 0 <= j < i ==> s@[j] != c
            },
            None => {
                &&& first_index_of(s@, c) == -1
                &&& forall|j: int| 0 <= j < s@.len() ==> s@[j] != c
            },
        },
{
    let n: usize = s.unicode_len();
    let mut i: usize = 0;
    while i < n
        invariant
            i <= n,
            n == s@.len(),
            forall|j: int| 0 <= j < i ==> s@[j] != c,
        decreases n - i,
    {
        if s.get_char(i) == c {
            proof {
                lemma_first_index_of(s@, c);
            }
            return Some(i);
        }
        i = i + 1;
    }
    proof {
        lemma_first_index_of(s@, c);
    }
    None
}

/// `s` split at every occurrence of `sep`; the separators are dropped and
/// empty pieces are kept, so the result always has one piece more than `s`
/// has separators.
pub open spec fn split_char(s: Seq<char>, sep: char) -> Seq<Seq<char>>
    decreases s.len(),
{
    let i = first_index_of(s, sep);
    if i < 0 || i >= s.len() {
        seq![s]
    } else {
        seq![s.subrange(0, i)] + split_char(s.subrange(i + 1, s.len() as int), sep)
    }
}

/// Splits `s` at every occurrence of `sep`.
pub fn split_on(s: &str, sep: char) -> (r: Vec<String>)
    ensures
        r.deep_view() == split_char(s@, sep),
        r.len() >= 1,
    decreases s@.len(),
{
    let n: usize = s.unicode_len();
    match find_char(s, sep) {
        None => {
            let r: Vec<String> = vec![String::from_str(s)];
            assert(r.deep_view() =~= split_char(s@, sep));
            r
        },
        Some(i) => {
            let piece = String::from_str(s.substring_char(0, i));
            let rest = s.substring_char(i + 1, n);
            let mut r = split_on(rest, sep);
            r.insert(0, piece);
            assert(r.deep_view() =~= split_char(s@, sep));
            r
        },
    }
}

/// `s` split at the first occurrences of `sep` into at most `n` pieces; the
/// last piece keeps the rest of the string, separators included.
pub open spec fn splitn_char(s: Seq<char>, sep: char, n: nat) -> Seq<Seq<char>>
    decreases n,
{
    let i = first_index_of(s, sep);
    if n <= 1 || i < 0 || i >= s.len() {
        seq![s]
    } else {
        seq![s.subrange(0, i)] + splitn_char(s.subrange(i + 1, s.len() as int), sep, (n - 1) as nat)
    }
}

/// Splits `s` at `sep` into at most `n` pieces, `n >= 1`.
pub fn splitn_on(s: &str, sep: char, n: usize) -> (r: Vec<String>)
    requires
        n >= 1,
    ensures
        r.deep_view() == splitn_char(s@, sep, n as nat),
        r.len() >= 1,
    decreases n,
{
    if n == 1 {
        let r: Vec<String> = vec![String::from_str(s)];
        assert(r.deep_view() =~= splitn_char(s@, sep, n as nat));
        return r;
    }
    let slen: usize = s.unicode_len();
    match find_char(s, sep) {
        None => {
            let r: Vec<String> = vec![String::from_str(s)];
            assert(r.deep_view() =~= splitn_char(s@, sep, n as nat));
            r
        },
        Some(i) => {
            let piece = String::from_str(s.substring_char(0, i));
            let rest = s.substring_char(i + 1, slen);
            let mut r = splitn_on(rest, sep, n - 1);
            r.insert(0, piece);
            assert(r.deep_view() =~= splitn_char(s@, sep, n as nat));
            r
        },
    }
}

/// The piece of `s` starting at `i` matches `p` exactly.
fn eq_at(s: &str, p: &str, i: usize) -> (r: bool)
    requires
        i + p@.len() <= s@.len(),
        s@.len() <= usize::MAX,
    ensures
        r == (s@.subrange(i as int, i as int + p@.len() as int) == p@),
{
    let plen: usize = p.unicode_len();
    let mut j: usize = 0;
    while j < plen
        invariant
            j <= plen,
            plen == p@.len(),
            i + plen <= s@.len(),
            s@.len() <= usize::MAX,
            forall|k: int| 0 <= k < j ==> s@[i + k] == p@[k],
        decreases plen - j,
    {
        if s.get_char(i + j) != p.get_char(j) {
            assert(s@.subrange(i as int, i as int + p@.len() as int)[j as int] != p@[j as int]);
            return false;
        }
        j = j + 1;
    }
    assert(s@.subrange(i as int, i as int + p@.len() as int) =~= p@);
    true
}

/// `p` occurs somewhere in `s` as a contiguous piece.
pub open spec fn contains_seq(s: Seq<char>, p: Seq<char>) -> bool {
    exists|i: int| 0 <= i && i + p.len() <= s.len() && #[trigger] s.subrange(i, i + p.len()) == p
}

/// Whether `p` occurs somewhere in `s`.
pub fn contains_sub(s: &str, p: &str) -> (r: bool)
    ensures
        r == contains_seq(s@, p@),
{
    let n: usize = s.unicode_len();
    let plen: usize = p.unicode_len();
    if plen > n {
        assert(!contains_seq(s@, p@));
        return false;
    }
    if plen == 0 {
        assert(s@.subrange(0, 0 + p@.len() as int) =~= p@);
        return true;
    }
    let mut i: usize = 0;
    while i <= n - plen
        invariant
            1 <= plen <= n,
            n == s@.len(),
            plen == p@.len(),
            i <= n - plen + 1,
            forall|j: int| 0 <= j < i ==> #[trigger] s@.subrange(j, j + p@.len() as int) != p@,
        decreases n - i,
    {
        if eq_at(s, p, i) {
            assert(contains_seq(s@, p@));
            return true;
        }
        i = i + 1;
    }
    assert(!contains_seq(s@, p@));
    false
}

/// Index of the first occurrence of the piece `p` in `s`, or -1 when `p`
/// occurs nowhere in `s`.
pub open spec fn first_occurrence_of(s: Seq<char>, p: Seq<char>) -> int
    decreases s.len(),
{
    if p.len() > s.len() {
        -1
    } else if s.subrange(0, p.len() as int) == p {
        0
    } else if s.len() == 0 {
        -1
    } else if first_occurrence_of(s.drop_first(), p) < 0 {
        -1
    } else {
        first_occurrence_of(s.drop_first(), p) + 1
    }
}

pub proof fn lemma_first_occurrence_of(s: Seq<char>, p: Seq<char>)
    ensures
        first_occurrence_of(s, p) == -1 ==> forall|j: int|
            0 <= j && j + p.len() <= s.len() ==> #[trigger] s.subrange(j, j + p.len() as int) != p,
        first_occurrence_of(s, p) != -1 ==> {
            &&& 0 <= first_occurrence_of(s, p)
            &&& first_occurrence_of(s, p) + p.len() <= s.len()
            &&& s.subrange(first_occurrence_of(s, p), first_occurrence_of(s, p) + p.len() as int)
                == p
            &&& forall|j: int|
                0 <= j < first_occurrence_of(s, p) ==> #[trigger] s.subrange(
                    j,
                    j + p.len() as int,
                ) != p
        },
    decreases s.len(),
{
    if p.len() <= s.len() && s.subrange(0, p.len() as int) != p && s.len() > 0 {
        lemma_first_occurrence_of(s.drop_first(), p);
        assert forall|j: int| 1 <= j && j + p.len() <= s.len() implies #[trigger] s.subrange(
            j,
            j + p.len() as int,
        ) == s.drop_first().subrange(j - 1, j - 1 + p.len() as int) by {
            assert(s.subrange(j, j + p.len() as int) =~= s.drop_first().subrange(
                j - 1,
                j - 1 + p.len() as int,
            ));
        }
    }
}

/// Finds the first occurrence of the piece `p` in `s`.
pub fn find_sub(s: &str, p: &str) -> (r: Option<usize>)
    ensures
        match r {
            Some(i) => {
                &&& i as int == first_occurrence_of(s@, p@)
                &&& i + p@.len() <= s@.len()
                &&& s@.subrange(i as int, i as int + p@.len() as int) == p@
                &&& forall|j: int|
                    0 <= j < i ==> #[trigger] s@.subrange(j, j + p@.len() as int) != p@
            },
            None => {
                &&& first_occurrence_of(s@, p@) == -1
                &&& !contains_seq(s@, p@)
            },
        },
{
    let n: usize = s.unicode_len();
    let plen: usize = p.unicode_len();
    if plen > n {
        return None;
    }
    if plen == 0 {
        assert(s@.subrange(0, 0 + p@.len() as int) =~= p@);
        return Some(0);
    }
    let mut i: usize = 0;
    while i <= n - plen
        invariant
            1 <= plen <= n,
            n == s@.len(),
            plen == p@.len(),
            i <= n - plen + 1,
            forall|j: int| 0 <= j < i ==> #[trigger] s@.subrange(j, j + p@.len() as int) != p@,
        decreases n - i,
    {
        if eq_at(s, p, i) {
            proof {
                lemma_first_occurrence_of(s@, p@);
            }
            return Some(i);
        }
        i = i + 1;
    }
    proof {
        lemma_first_occurrence_of(s@, p@);
    }
    None
}

/// `s` begins with `p`.
pub open spec fn starts_with_seq(s: Seq<char>, p: Seq<char>) -> bool {
    p.len() <= s.len() && s.subrange(0, p.len() as int) == p
}

/// Whether `s` begins with `p`.
pub fn starts_with_str(s: &str, p: &str) -> (r: bool)
    ensures
        r == starts_with_seq(s@, p@),
{
    if p.unicode_len() > s.unicode_len() {
        return false;
    }
    eq_at(s, p, 0)
}

/// Whether two strings hold the same characters.
pub fn str_eq(a: &str, b: &str) -> (r: bool)
    ensures
        r == (a@ == b@),
{
    let an: usize = a.unicode_len();
    let bn: usize = b.unicode_len();
    if an != bn {
        return false;
    }
    let r = eq_at(a, b, 0);
    proof {
        assert(a@.subrange(0, b@.len() as int) =~= a@);
    }
    r
}

/// The fixed rendering of a boolean.
pub fn bool_str(b: bool) -> (r: &'static str)
    ensures
        r@ == (if b {
            "true"@
        } else {
            "false"@
        }),
{
    if b {
        "true"
    } else {
        "false"
    }
}

/// The concatenation of two strings.
pub fn concat_str(a: &str, b: &str) -> (r: String)
    ensures
        r@ == a@ + b@,
{
    let mut r = String::from_str(a);
    r.append(b);
    r
}

/// The decimal digit character for `d`.
pub open spec fn digit_char(d: int) -> char {
    if d == 0 {
        '0'
    } else if d == 1 {
        '1'
    } else if d == 2 {
        '2'
    } else if d == 3 {
        '3'
    } else if d == 4 {
        '4'
    } else if d == 5 {
        '5'
    } else if d == 6 {
        '6'
    } else if d == 7 {
        '7'
    } else if d == 8 {
        '8'
    } else {
        '9'
    }
}

/// The one-character string for digit `d`.
fn digit_str(d: u64) -> (r: &'static str)
    requires
        d <= 9,
    ensures
        r@ =~= seq![digit_char(d as int)],
{
    proof {
        reveal_strlit("0");
        reveal_strlit("1");
        reveal_strlit("2");
        reveal_strlit("3");
        reveal_strlit("4");
        reveal_strlit("5");
        reveal_strlit("6");
        reveal_strlit("7");
        reveal_strlit("8");
        reveal_strlit("9");
    }
    if d == 0 {
        "0"
    } else if d == 1 {
        "1"
    } else if d == 2 {
        "2"
    } else if d == 3 {
        "3"
    } else if d == 4 {
        "4"
    } else if d == 5 {
        "5"
    } else if d == 6 {
        "6"
    } else if d == 7 {
        "7"
    } else if d == 8 {
        "8"
    } else {
        "9"
    }
}

/// Decimal digits of `n`, most significant first, no leading zeros
/// (a single zero digit for 0).
pub open spec fn spec_uint_str(n: nat) -> Seq<char>
    decreases n,
{
    if n < 10 {
        seq![digit_char(n as int)]
    } else {
        spec_uint_str(n / 10).push(digit_char((n % 10) as int))
    }
}

/// Formats `n` in decimal.
pub fn u64_to_string(n: u64) -> (r: String)
    ensures
        r@ == spec_uint_str(n as nat),
    decreases n,
{
    if n < 10 {
        let r = String::from_str(digit_str(n));
        assert(r@ =~= spec_uint_str(n as nat));
        r
    } else {
        let mut r = u64_to_string(n / 10);
        r.append(digit_str(n % 10));
        assert(r@ =~= spec_uint_str(n as nat));
        r
    }
}

/// Decimal digits of `n` zero-padded on the left to exactly `w` digits;
/// higher digits are cut off.
pub open spec fn spec_uint_str_pad(n: nat, w: nat) -> Seq<char>
    decreases w,
{
    if w == 0 {
        Seq::empty()
    } else {
        spec_uint_str_pad(n / 10, (w - 1) as nat).push(digit_char((n % 10) as int))
    }
}

/// Formats `n` zero-padded on the left to exactly `w` digits.
pub fn u64_to_string_pad(n: u64, w: u32) -> (r: String)
    ensures
        r@ == spec_uint_str_pad(n as nat, w as nat),
    decreases w,
{
    if w == 0 {
        let r = String::new();
        assert(r@ =~= spec_uint_str_pad(n as nat, 0));
        r
    } else {
        let mut r = u64_to_string_pad(n / 10, w - 1);
        r.append(digit_str(n % 10));
        assert(r@ =~= spec_uint_str_pad(n as nat, w as nat));
        r
    }
}

/// Formats `n` as exactly two digits, zero-padded.
pub fn u64_to_two_digits(n: u64) -> (r: String)
    requires
        n <= 99,
    ensures
        r@ == spec_uint_str_pad(n as nat, 2),
{
    let mut r = String::from_str(digit_str(n / 10));
    r.append(digit_str(n % 10));
    assert(r@ =~= spec_uint_str_pad(n as nat, 2)) by {
        reveal_with_fuel(spec_uint_str_pad, 3);
    }
    r
}

} // verus!
