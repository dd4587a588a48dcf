//! Character-level string helpers: ASCII case folding, substring search and
//! decimal rendering, each stated over the characters of the strings.
use vstd::prelude::*;

verus! {

broadcast use vstd::string::group_string_axioms;

/// Appends one character to `s`: std's `String::push`.
#[verifier::external_body]
pub(crate) fn push_char(s: &mut String, c: char)
    ensures
        final(s)@ == old(s)@.push(c),
{
    s.push(c)
}

/// The characters of `s`, in order.
pub fn chars_of(s: &str) -> (r: Vec<char>)
    ensures
        r@ == s@,
{
    let mut out: Vec<char> = Vec::new();
    for c in it: s.chars()
        invariant
            it.seq() == s@,
            out@ == it.seq().take(it.index()),
    {
        out.push(c);
        assert(out@ =~= it.seq().take(it.index() + 1));
    }
    assert(out@ =~= s@);
    out
}

/// `c` with ASCII upper-case letters mapped to lower case; every other
/// character unchanged.
pub open spec fn ascii_lower(c: char) -> char {
    if 'A' <= c <= 'Z' {
        ((c as u32) + 32) as char
    } else {
        c
    }
}

/// Two strings are equal up to ASCII case: same length, and equal at every
/// position once ASCII letters are folded to lower case.
pub open spec fn eq_ignoring_ascii_case(a: Seq<char>, b: Seq<char>) -> bool {
    &&& a.len() == b.len()
    &&& forall|i: int| 0 <= i < a.len() ==> ascii_lower(#[trigger] a[i]) == ascii_lower(b[i])
}

/// `x` is an ASCII upper-case letter and `y` the same letter in lower case.
pub open spec fn upper_lower_pair(x: char, y: char) -> bool {
    'A' <= x <= 'Z' && (y as u32) == (x as u32) + 32
}

/// Equality up to ASCII case, character by character: the strings have the
/// same length, and at each position the characters are equal or are one
/// ASCII letter in its two cases. Every other character, non-ASCII ones
/// included, must match exactly.
pub proof fn lemma_eq_ignoring_ascii_case_meaning(a: Seq<char>, b: Seq<char>)
    ensures
        eq_ignoring_ascii_case(a, b) <==> (a.len() == b.len() && forall|i: int|
            0 <= i < a.len() ==> (#[trigger] a[i] == b[i] || upper_lower_pair(a[i], b[i])
                || upper_lower_pair(b[i], a[i]))),
{
    assert forall|x: char, y: char| #[trigger] ascii_lower(x) == #[trigger] ascii_lower(y) <==> (x
        == y || upper_lower_pair(x, y) || upper_lower_pair(y, x)) by {
        lemma_ascii_lower_pair(x, y);
    }
    if a.len() == b.len() {
        assert((forall|i: int| 0 <= i < a.len() ==> ascii_lower(#[trigger] a[i]) == ascii_lower(b[i]))
            <==> (forall|i: int|
            0 <= i < a.len() ==> (#[trigger] a[i] == b[i] || upper_lower_pair(a[i], b[i])
                || upper_lower_pair(b[i], a[i])))) by {
            assert forall|i: int| 0 <= i < a.len() implies (ascii_lower(#[trigger] a[i])
                == ascii_lower(b[i]) <==> (a[i] == b[i] || upper_lower_pair(a[i], b[i])
                || upper_lower_pair(b[i], a[i]))) by {
                lemma_ascii_lower_pair(a[i], b[i]);
            }
        }
    }
}

proof fn lemma_ascii_lower_pair(x: char, y: char)
    ensures
        ascii_lower(x) == ascii_lower(y) <==> (x == y || upper_lower_pair(x, y) || upper_lower_pair(
            y,
            x,
        )),
{
    if 'A' <= x <= 'Z' {
        assert((((x as u32) + 32) as char) as u32 == (x as u32) + 32);
    }
    if 'A' <= y <= 'Z' {
        assert((((y as u32) + 32) as char) as u32 == (y as u32) + 32);
    }
}

/// `pat` occurs in `hay` starting at position `i`.
pub open spec fn occurs_at(hay: Seq<char>, pat: Seq<char>, i: int) -> bool {
    0 <= i && i + pat.len() <= hay.len() && hay.subrange(i, i + pat.len()) == pat
}

/// `pat` occurs somewhere in `hay`.
pub open spec fn occurs_in(hay: Seq<char>, pat: Seq<char>) -> bool {
    exists|i: int| occurs_at(hay, pat, i)
}

/// `pat` is a prefix of `s`.
pub open spec fn has_prefix(s: Seq<char>, pat: Seq<char>) -> bool {
    pat.len() <= s.len() && s.take(pat.len() as int) == pat
}

fn lower_char(c: char) -> (r: char)
    ensures
        r == ascii_lower(c),
{
    if 'A' <= c && c <= 'Z' {
        let b: u8 = c as u8;
        assert(b == c as u32);
        ((b + 32) as char)
    } else {
        c
    }
}

/// Whether `a` and `b` are equal up to ASCII case, as `str::eq_ignore_ascii_case`.
pub fn eq_ignore_ascii_case(a: &str, b: &str) -> (r: bool)
    ensures
        r == eq_ignoring_ascii_case(a@, b@),
{
    let x = chars_of(a);
    let y = chars_of(b);
    eq_ignore_ascii_case_chars(x.as_slice(), y.as_slice())
}

/// Whether the character sequences `x` and `y` are equal up to ASCII case.
pub fn eq_ignore_ascii_case_chars(x: &[char], y: &[char]) -> (r: bool)
    ensures
        r == eq_ignoring_ascii_case(x@, y@),
{
    if x.len() != y.len() {
        return false;
    }
    let n = x.len();
    let mut i: usize = 0;
    while i < n
        invariant
            n == x@.len(),
            n == y@.len(),
            0 <= i <= n,
            forall|j: int| 0 <= j < i ==> ascii_lower(#[trigger] x@[j]) == ascii_lower(y@[j]),
        decreases n - i,
    {
        if lower_char(x[i]) != lower_char(y[i]) {
            return false;
        }
        i = i + 1;
    }
    true
}

/// Whether `pat` is a prefix of `s`.
pub fn starts_with_chars(s: &[char], pat: &[char]) -> (r: bool)
    ensures
        r == has_prefix(s@, pat@),
{
    if pat.len() > s.len() {
        return false;
    }
    let n = pat.len();
    let mut i: usize = 0;
    while i < n
        invariant
            n == pat@.len(),
            n <= s@.len(),
            0 <= i <= n,
            forall|j: int| 0 <= j < i ==> s@[j] == pat@[j],
        decreases n - i,
    {
        if s[i] != pat[i] {
            assert(s@.take(n as int)[i as int] != pat@[i as int]);
            return false;
        }
        i = i + 1;
    }
    assert(s@.take(n as int) =~= pat@);
    true
}

/// Whether `pat` occurs in `hay`.
pub fn contains_chars(hay: &[char], pat: &[char]) -> (r: bool)
    ensures
        r == occurs_in(hay@, pat@),
{
    if pat.len() > hay.len() {
        assert forall|i: int| !occurs_at(hay@, pat@, i) by {}
        return false;
    }
    let m = pat.len();
    let n = hay.len();
    if m == 0 {
        assert(hay@.subrange(0, 0) =~= pat@);
        assert(occurs_at(hay@, pat@, 0));
        return true;
    }
    let last = n - m;
    let mut i: usize = 0;
    while i <= last
        invariant
            m == pat@.len(),
            m >= 1,
            n == hay@.len(),
            last + m == n,
            0 <= i <= last + 1,
            forall|k: int| 0 <= k < i ==> !occurs_at(hay@, pat@, k),
        decreases last + 1 - i,
    {
        let mut j: usize = 0;
        let mut same = true;
        while j < m
            invariant
                m == pat@.len(),
                n == hay@.len(),
                last + m == n,
                i <= last,
                0 <= j <= m,
                same == forall|t: int| 0 <= t < j ==> hay@[i + t] == pat@[t],
            decreases m - j,
        {
            if hay[i + j] != pat[j] {
                same = false;
            }
            j = j + 1;
        }
        if same {
            assert(hay@.subrange(i as int, i + m) =~= pat@);
            assert(occurs_at(hay@, pat@, i as int));
            return true;
        }
        proof {
            if occurs_at(hay@, pat@, i as int) {
                let t = choose|t: int| 0 <= t < m && hay@[i + t] != pat@[t];
                assert(hay@.subrange(i as int, i + m)[t] == hay@[i + t]);
            }
        }
        i = i + 1;
    }
    proof {
        assert forall|k: int| !occurs_at(hay@, pat@, k) by {
            if 0 <= k && k + m <= hay@.len() {
                assert(k < i);
            }
        }
    }
    false
}

/// The decimal digit character for `d < 10`.
pub open spec fn digit_char(d: nat) -> char {
    ((48 + d) as u8) as char
}

/// The decimal rendering of `n`, without leading zeros.
pub open spec fn decimal(n: nat) -> Seq<char>
    decreases n,
{
    if n < 10 {
        seq![digit_char(n)]
    } else {
        decimal(n / 10).push(digit_char(n % 10))
    }
}

/// The number that a string of decimal digits denotes.
pub open spec fn digits_value(s: Seq<char>) -> int
    decreases s.len(),
{
    if s.len() == 0 {
        0
    } else {
        digits_value(s.drop_last()) * 10 + ((s.last() as u32) - 48)
    }
}

/// The decimal rendering of `n` is a nonempty string of the digits `0`-`9`,
/// without a leading zero unless `n` is zero, that denotes `n`.
pub proof fn lemma_decimal_denotes(n: nat)
    ensures
        decimal(n).len() > 0,
        forall|i: int| 0 <= i < decimal(n).len() ==> '0' <= #[trigger] decimal(n)[i] <= '9',
        n > 0 ==> decimal(n)[0] != '0',
        digits_value(decimal(n)) == n,
    decreases n,
{
    assert(digit_char(n % 10) as u32 == 48 + n % 10);
    if n < 10 {
        assert(decimal(n).drop_last() =~= Seq::<char>::empty());
        assert(digits_value(decimal(n)) == digits_value(Seq::<char>::empty()) * 10 + (n % 10));
    }
    if n >= 10 {
        lemma_decimal_denotes(n / 10);
        let p = decimal(n / 10);
        assert(decimal(n).drop_last() =~= p);
        assert(decimal(n).last() == digit_char(n % 10));
        assert(decimal(n)[0] == p[0]);
        assert((n / 10) * 10 + n % 10 == n);
        assert(digits_value(decimal(n)) == digits_value(p) * 10 + (n % 10));
        assert forall|i: int| 0 <= i < decimal(n).len() implies '0' <= #[trigger] decimal(n)[i]
            <= '9' by {
            if i < p.len() {
                assert(decimal(n)[i] == p[i]);
            }
        }
    }
}

/// Appends the decimal rendering of `n` to `out`.
pub fn push_decimal(out: &mut String, n: u64)
    ensures
        final(out)@ == old(out)@ + decimal(n as nat),
    decreases n,
{
    if n >= 10 {
        push_decimal(out, n / 10);
    }
    let d: u8 = (n % 10) as u8;
    push_char(out, (d + 48) as char);
    assert(out@ =~= old(out)@ + decimal(n as nat));
}

} // verus!
