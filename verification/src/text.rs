//! Character-level helpers on strings, each proved against a small
//! specification over `Seq<char>`.

use vstd::prelude::*;
use vstd::string::*;
use vstd::utf8::*;

verus! {

// ---------------------------------------------------------------------------
// Specifications
// ---------------------------------------------------------------------------

/// First index of `c` in `s`, if any.
pub open spec fn first_index_of(s: Seq<char>, c: char) -> Option<int>
    decreases s.len(),
{
    if s.len() == 0 {
        None
    } else if s[0] == c {
        Some(0)
    } else {
        match first_index_of(s.drop_first(), c) {
            Some(i) => Some(i + 1),
            None => None,
        }
    }
}

/// The part of `s` before the first occurrence of `c` (all of `s` if `c`
/// does not occur).
pub open spec fn before_first(s: Seq<char>, c: char) -> Seq<char> {
    match first_index_of(s, c) {
        Some(i) => s.take(i),
        None => s,
    }
}

/// Number of occurrences of `c` in `s`.
pub open spec fn count_char(s: Seq<char>, c: char) -> nat
    decreases s.len(),
{
    if s.len() == 0 {
        0
    } else {
        count_char(s.drop_last(), c) + if s.last() == c {
            1nat
        } else {
            0nat
        }
    }
}

/// `p` occurs in `s` starting at index `i`.
pub open spec fn occurs_at(s: Seq<char>, p: Seq<char>, i: int) -> bool {
    0 <= i && i + p.len() <= s.len() && s.subrange(i, i + p.len()) == p
}

/// `p` occurs somewhere in `s` (the empty sequence occurs in every sequence).
pub open spec fn contains_seq(s: Seq<char>, p: Seq<char>) -> bool {
    exists|i: int| occurs_at(s, p, i)
}

pub open spec fn has_prefix(s: Seq<char>, p: Seq<char>) -> bool {
    occurs_at(s, p, 0)
}

pub open spec fn has_suffix(s: Seq<char>, p: Seq<char>) -> bool {
    occurs_at(s, p, s.len() - p.len())
}

/// `s` with every trailing `c` removed.
pub open spec fn trim_end_char(s: Seq<char>, c: char) -> Seq<char>
    decreases s.len(),
{
    if s.len() > 0 && s.last() == c {
        trim_end_char(s.drop_last(), c)
    } else {
        s
    }
}

/// Left-to-right replacement of every non-overlapping occurrence of a
/// non-empty `pat` by `rep`.
pub open spec fn replace_all(s: Seq<char>, pat: Seq<char>, rep: Seq<char>) -> Seq<char>
    decreases s.len(),
{
    if pat.len() == 0 || s.len() < pat.len() {
        s
    } else if s.take(pat.len() as int) == pat {
        rep + replace_all(s.skip(pat.len() as int), pat, rep)
    } else {
        seq![s[0]] + replace_all(s.drop_first(), pat, rep)
    }
}

/// The decimal digit character for `d < 10`.
pub open spec fn digit_char(d: nat) -> char {
    if d == 0 {
        '0'
    } else if d == 1 {
        '1'
    } else if d == 2 {
        '2'
    } else if d == 3 {
        '3'
    } else if d == 4 {
        '4'
    } else if d == 5 {
        '5'
    } else if d == 6 {
        '6'
    } else if d == 7 {
        '7'
    } else if d == 8 {
        '8'
    } else {
        '9'
    }
}

pub open spec fn is_digit(c: char) -> bool {
    '0' <= c && c <= '9'
}

/// The decimal representation of `n`, without leading zeros.
pub open spec fn decimal(n: nat) -> Seq<char>
    decreases n,
{
    if n < 10 {
        seq![digit_char(n)]
    } else {
        decimal(n / 10).push(digit_char(n % 10))
    }
}

/// Number of bytes in the UTF-8 encoding of `s` (what `str::len` returns).
pub open spec fn byte_len(s: Seq<char>) -> nat {
    encode_utf8(s).len()
}

/// ASCII lower-casing of a single character; other characters are unchanged.
pub open spec fn ascii_lower(c: char) -> char {
    if 'A' <= c && c <= 'Z' {
        ((c as u32) + 32) as char
    } else {
        c
    }
}

// ---------------------------------------------------------------------------
// Lemmas
// ---------------------------------------------------------------------------

pub proof fn lemma_first_index_of(s: Seq<char>, c: char)
    ensures
        first_index_of(s, c) is None <==> !s.contains(c),
        first_index_of(s, c) matches Some(i) ==> 0 <= i < s.len() && s[i] == c && !s.take(
            i,
        ).contains(c),
    decreases s.len(),
{
    if s.len() > 0 {
        lemma_first_index_of(s.drop_first(), c);
        if s[0] != c {
            if first_index_of(s.drop_first(), c) is None {
                assert forall|k: int| 0 <= k < s.len() implies s[k] != c by {
                    if k > 0 {
                        assert(s[k] == s.drop_first()[k - 1]);
                    }
                }
            } else {
                let i = first_index_of(s.drop_first(), c)->0;
                assert(s.take(i + 1) =~= seq![s[0]] + s.drop_first().take(i));
            }
        } else {
            assert(s.contains(c));
        }
    }
}

pub proof fn lemma_digit_char(d: nat)
    requires
        d < 10,
    ensures
        is_digit(digit_char(d)),
        digit_char(d) != ':',
{
}

pub proof fn lemma_digit_char_injective(a: nat, b: nat)
    requires
        a < 10,
        b < 10,
        digit_char(a) == digit_char(b),
    ensures
        a == b,
{
}

/// Every character of a decimal representation is a digit, and it is never empty.
pub proof fn lemma_decimal_digits(n: nat)
    ensures
        decimal(n).len() >= 1,
        forall|i: int| 0 <= i < decimal(n).len() ==> is_digit(#[trigger] decimal(n)[i]),
        n >= 10 ==> decimal(n).len() >= 2,
    decreases n,
{
    if n >= 10 {
        lemma_decimal_digits(n / 10);
        lemma_digit_char(n % 10);
    } else {
        lemma_digit_char(n);
    }
}

/// Distinct numbers have distinct decimal representations.
pub proof fn lemma_decimal_injective(a: nat, b: nat)
    requires
        decimal(a) == decimal(b),
    ensures
        a == b,
    decreases a,
{
    lemma_decimal_digits(a);
    lemma_decimal_digits(b);
    if a < 10 && b < 10 {
        assert(decimal(a)[0] == digit_char(a));
        assert(decimal(b)[0] == digit_char(b));
        lemma_digit_char_injective(a, b);
    } else if a >= 10 && b >= 10 {
        let da = decimal(a);
        let db = decimal(b);
        assert(da.last() == digit_char(a % 10));
        assert(db.last() == digit_char(b % 10));
        lemma_digit_char_injective(a % 10, b % 10);
        assert(decimal(a / 10) =~= da.drop_last());
        assert(decimal(b / 10) =~= db.drop_last());
        lemma_decimal_injective(a / 10, b / 10);
        assert(a == (a / 10) * 10 + a % 10);
        assert(b == (b / 10) * 10 + b % 10);
    } else {
        assert(decimal(a).len() != decimal(b).len());
    }
}

pub proof fn lemma_encode_scalar_nonempty(c: char)
    ensures
        encode_scalar(c as u32).len() >= 1,
{
}

/// The UTF-8 encoding of a concatenation is the concatenation of the encodings.
pub proof fn lemma_byte_len_concat(a: Seq<char>, b: Seq<char>)
    ensures
        byte_len(a + b) == byte_len(a) + byte_len(b),
    decreases a.len(),
{
    if a.len() == 0 {
        assert(a + b =~= b);
    } else {
        assert((a + b).drop_first() =~= a.drop_first() + b);
        assert((a + b)[0] == a[0]);
        lemma_byte_len_concat(a.drop_first(), b);
    }
}

/// Appending a non-empty sequence strictly increases the byte length.
pub proof fn lemma_byte_len_strict_prefix(a: Seq<char>, b: Seq<char>)
    requires
        a.len() < b.len(),
        b.take(a.len() as int) == a,
    ensures
        byte_len(a) < byte_len(b),
{
    let rest = b.skip(a.len() as int);
    assert(b =~= a + rest);
    lemma_byte_len_concat(a, rest);
    assert(rest.len() > 0);
    lemma_encode_scalar_nonempty(rest[0]);
}

pub proof fn lemma_trim_end_char(s: Seq<char>, c: char)
    ensures
        has_prefix(s, trim_end_char(s, c)),
        trim_end_char(s, c).len() > 0 ==> trim_end_char(s, c).last() != c,
        forall|i: int|
            trim_end_char(s, c).len() <= i < s.len() ==> #[trigger] s[i] == c,
    decreases s.len(),
{
    if s.len() > 0 && s.last() == c {
        lemma_trim_end_char(s.drop_last(), c);
        let t = trim_end_char(s.drop_last(), c);
        assert(s.subrange(0, t.len() as int) =~= s.drop_last().subrange(0, t.len() as int));
        assert forall|i: int| t.len() <= i < s.len() implies #[trigger] s[i] == c by {
            if i < s.len() - 1 {
                assert(s[i] == s.drop_last()[i]);
            }
        }
    } else {
        assert(s.subrange(0, s.len() as int) =~= s);
    }
}

// ---------------------------------------------------------------------------
// Executable helpers
// ---------------------------------------------------------------------------

/// Copies the characters of `s` into a vector.
pub fn chars_of(s: &str) -> (v: Vec<char>)
    ensures
        v@ == s@,
{
    let mut v: Vec<char> = Vec::new();
    for c in it: s.chars()
        invariant
            v@ == it.seq().take(it.index() as int),
            it.seq() == s@,
    {
        v.push(c);
    }
    v
}

/// Index of the first `c` in `v`.
pub fn index_of_char(v: &Vec<char>, c: char) -> (res: Option<usize>)
    ensures
        match res {
            Some(i) => first_index_of(v@, c) == Some(i as int),
            None => first_index_of(v@, c) is None,
        },
{
    proof {
        lemma_first_index_of(v@, c);
    }
    let mut i: usize = 0;
    while i < v.len()
        invariant
            i <= v.len(),
            forall|k: int| 0 <= k < i ==> v@[k] != c,
            first_index_of(v@, c) is None <==> !v@.contains(c),
            first_index_of(v@, c) matches Some(j) ==> 0 <= j < v@.len() && v@[j] == c
                && !v@.take(j).contains(c),
        decreases v.len() - i,
    {
        if v[i] == c {
            proof {
                let j = first_index_of(v@, c);
                assert(v@.contains(c));
                let jj = j->0;
                if jj < i {
                } else if jj > i {
                    assert(v@.take(jj)[i as int] == c);
                }
            }
            return Some(i);
        }
        i = i + 1;
    }
    proof {
        assert(!v@.contains(c));
    }
    None
}

/// The part of `s` before the first `c` (all of `s` when there is none);
/// what `s.split(c).next()` yields.
pub fn prefix_before(s: &str, c: char) -> (res: String)
    ensures
        res@ == before_first(s@, c),
{
    let v = chars_of(s);
    proof {
        lemma_first_index_of(s@, c);
    }
    match index_of_char(&v, c) {
        Some(i) => s.substring_char(0, i).to_owned(),
        None => s.to_owned(),
    }
}

/// Number of occurrences of `c` in `s`.
pub fn count_char_in(s: &str, c: char) -> (res: usize)
    ensures
        res == count_char(s@, c),
{
    let v = chars_of(s);
    let mut n: usize = 0;
    let mut i: usize = 0;
    while i < v.len()
        invariant
            v@ == s@,
            i <= v.len(),
            n == count_char(s@.take(i as int), c),
            n <= i,
        decreases v.len() - i,
    {
        proof {
            assert(s@.take(i + 1).drop_last() =~= s@.take(i as int));
        }
        if v[i] == c {
            n = n + 1;
        }
        i = i + 1;
    }
    proof {
        assert(s@.take(v.len() as int) =~= s@);
    }
    n
}

/// Whether `c` occurs in `s`.
pub fn contains_char(s: &str, c: char) -> (res: bool)
    ensures
        res == s@.contains(c),
{
    let v = chars_of(s);
    proof {
        lemma_first_index_of(v@, c);
    }
    index_of_char(&v, c).is_some()
}

/// Whether `p` occurs in `v` at position `i`.
pub fn matches_at(v: &Vec<char>, p: &Vec<char>, i: usize) -> (res: bool)
    ensures
        res == occurs_at(v@, p@, i as int),
{
    if i > v.len() || p.len() > v.len() - i {
        return false;
    }
    let mut k: usize = 0;
    while k < p.len()
        invariant
            i + p.len() <= v.len(),
            k <= p.len(),
            forall|j: int| 0 <= j < k ==> v@[i + j] == p@[j],
        decreases p.len() - k,
    {
        if v[i + k] != p[k] {
            proof {
                assert(v@.subrange(i as int, i + p.len())[k as int] != p@[k as int]);
            }
            return false;
        }
        k = k + 1;
    }
    proof {
        assert(v@.subrange(i as int, i + p.len()) =~= p@);
    }
    true
}

/// Whether `p` occurs anywhere in `s` (`str::contains` with a string pattern).
pub fn contains_str(s: &str, p: &str) -> (res: bool)
    ensures
        res == contains_seq(s@, p@),
{
    let v = chars_of(s);
    let pv = chars_of(p);
    if pv.len() > v.len() {
        proof {
            assert forall|i: int| !occurs_at(s@, p@, i) by {}
        }
        return false;
    }
    let last = v.len() - pv.len();
    let mut i: usize = 0;
    while i < last
        invariant
            last == v.len() - pv.len(),
            i <= last,
            v@ == s@,
            pv@ == p@,
            forall|j: int| 0 <= j < i ==> !occurs_at(s@, p@, j),
        decreases last - i,
    {
        if matches_at(&v, &pv, i) {
            return true;
        }
        i = i + 1;
    }
    if matches_at(&v, &pv, last) {
        return true;
    }
    proof {
        assert forall|j: int| !occurs_at(s@, p@, j) by {
            if 0 <= j && j + p@.len() <= s@.len() {
                assert(j <= last);
            }
        }
    }
    false
}

/// Whether `s` starts with `p`.
pub fn starts_with(s: &str, p: &str) -> (res: bool)
    ensures
        res == has_prefix(s@, p@),
{
    let v = chars_of(s);
    let pv = chars_of(p);
    matches_at(&v, &pv, 0)
}

/// Whether `s` ends with `p`.
pub fn ends_with(s: &str, p: &str) -> (res: bool)
    ensures
        res == has_suffix(s@, p@),
{
    let v = chars_of(s);
    let pv = chars_of(p);
    if pv.len() > v.len() {
        return false;
    }
    matches_at(&v, &pv, v.len() - pv.len())
}

/// Owned copy of `a` followed by `b`.
pub fn concat(a: &str, b: &str) -> (res: String)
    ensures
        res@ == a@ + b@,
{
    let mut s = a.to_owned();
    s.append(b);
    s
}

/// Owned copy of `a`, `b` and `c` in sequence.
pub fn concat3(a: &str, b: &str, c: &str) -> (res: String)
    ensures
        res@ == a@ + b@ + c@,
{
    let mut s = a.to_owned();
    s.append(b);
    s.append(c);
    s
}

/// Single-digit string.
fn digit_str(d: u64) -> (r: &'static str)
    requires
        d < 10,
    ensures
        r@ == seq![digit_char(d as nat)],
{
    if d == 0 {
        proof { reveal_strlit("0"); }
        "0"
    } else if d == 1 {
        proof { reveal_strlit("1"); }
        "1"
    } else if d == 2 {
        proof { reveal_strlit("2"); }
        "2"
    } else if d == 3 {
        proof { reveal_strlit("3"); }
        "3"
    } else if d == 4 {
        proof { reveal_strlit("4"); }
        "4"
    } else if d == 5 {
        proof { reveal_strlit("5"); }
        "5"
    } else if d == 6 {
        proof { reveal_strlit("6"); }
        "6"
    } else if d == 7 {
        proof { reveal_strlit("7"); }
        "7"
    } else if d == 8 {
        proof { reveal_strlit("8"); }
        "8"
    } else {
        proof { reveal_strlit("9"); }
        "9"
    }
}

/// Decimal rendering of an unsigned integer (what `{}` formatting prints).
pub fn decimal_string(n: u64) -> (res: String)
    ensures
        res@ == decimal(n as nat),
    decreases n,
{
    if n < 10 {
        digit_str(n).to_owned()
    } else {
        let mut s = decimal_string(n / 10);
        s.append(digit_str(n % 10));
        s
    }
}

/// `s` with all trailing `c` removed (`str::trim_end_matches` with a `char`).
pub fn trim_end_matches_char(s: &str, c: char) -> (res: String)
    ensures
        res@ == trim_end_char(s@, c),
{
    let v = chars_of(s);
    let mut end: usize = v.len();
    proof {
        assert(s@.take(end as int) =~= s@);
    }
    while end > 0 && v[end - 1] == c
        invariant
            end <= v.len(),
            v@ == s@,
            trim_end_char(s@, c) == trim_end_char(s@.take(end as int), c),
        decreases end,
    {
        proof {
            assert(s@.take(end as int).drop_last() =~= s@.take(end - 1));
        }
        end = end - 1;
    }
    proof {
        assert(s@.take(end as int).len() == 0 || s@.take(end as int).last() != c);
    }
    s.substring_char(0, end).to_owned()
}

/// Helper fact for `replace_str`: unfolding `replace_all` at position `i`.
proof fn lemma_replace_step(s: Seq<char>, pat: Seq<char>, rep: Seq<char>, i: int)
    requires
        pat.len() > 0,
        0 <= i,
        i + pat.len() <= s.len(),
    ensures
        occurs_at(s, pat, i) ==> replace_all(s.skip(i), pat, rep) == rep + replace_all(
            s.skip(i + pat.len()),
            pat,
            rep,
        ),
        !occurs_at(s, pat, i) ==> replace_all(s.skip(i), pat, rep) == seq![s[i]] + replace_all(
            s.skip(i + 1),
            pat,
            rep,
        ),
{
    let t = s.skip(i);
    assert(t.take(pat.len() as int) =~= s.subrange(i, i + pat.len()));
    assert(t.skip(pat.len() as int) =~= s.skip(i + pat.len()));
    assert(t.drop_first() =~= s.skip(i + 1));
}

/// Replaces every occurrence of a non-empty `pat` in `s` by `rep`
/// (`str::replace`).
pub fn replace_str(s: &str, pat: &str, rep: &str) -> (res: String)
    requires
        pat@.len() > 0,
    ensures
        res@ == replace_all(s@, pat@, rep@),
{
    let v = chars_of(s);
    let pv = chars_of(pat);
    let mut out = String::new();
    let mut seg: usize = 0;
    let mut i: usize = 0;
    proof {
        assert(s@.subrange(0, 0) =~= Seq::<char>::empty());
        assert(s@.skip(0) =~= s@);
        assert(out@ + s@.subrange(0, 0) =~= Seq::<char>::empty());
    }
    while pv.len() <= v.len() - i
        invariant
            v@ == s@,
            pv@ == pat@,
            pv@.len() > 0,
            seg <= i <= v.len(),
            out@ + s@.subrange(seg as int, i as int) + replace_all(s@.skip(i as int), pat@, rep@)
                == replace_all(s@, pat@, rep@),
        decreases v.len() - i,
    {
        proof {
            lemma_replace_step(s@, pat@, rep@, i as int);
        }
        if matches_at(&v, &pv, i) {
            let piece = s.substring_char(seg, i);
            let ghost old_out = out@;
            out.append(piece);
            out.append(rep);
            i = i + pv.len();
            seg = i;
            proof {
                assert(s@.subrange(seg as int, i as int) =~= Seq::<char>::empty());
                assert(out@ + s@.subrange(seg as int, i as int) =~= out@);
            }
        } else {
            let ghost old_seg = seg;
            let ghost old_i = i;
            i = i + 1;
            proof {
                assert(s@.subrange(old_seg as int, i as int) =~= s@.subrange(
                    old_seg as int,
                    old_i as int,
                ) + seq![s@[old_i as int]]);
            }
        }
    }
    proof {
        assert(s@.skip(i as int).len() < pat@.len());
        assert(replace_all(s@.skip(i as int), pat@, rep@) == s@.skip(i as int));
        assert(s@.subrange(seg as int, i as int) + s@.skip(i as int) =~= s@.subrange(
            seg as int,
            s@.len() as int,
        ));
    }
    let rest = s.substring_char(seg, v.len());
    out.append(rest);
    out
}

} // verus!
