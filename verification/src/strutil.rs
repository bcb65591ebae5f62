//! Character- and string-level helpers shared by the parsing and
//! encoding modules: pattern matching at a position, decimal digit
//! rendering, and appending single characters to a `String`.
use vstd::prelude::*;

verus! {

/// Relies on `String::push`: appends the given character to the end of
/// the string.
#[verifier::external_body]
pub(crate) fn push_char(s: &mut String, c: char)
    ensures
        final(s)@ == old(s)@.push(c),
{
    s.push(c)
}

/// True when `pat` occurs in `s` starting exactly at position `i`.
pub open spec fn matches_at(s: Seq<char>, i: int, pat: Seq<char>) -> bool {
    0 <= i && i + pat.len() <= s.len() && s.subrange(i, i + pat.len()) =~= pat
}

/// Whether the pattern string `pat` occurs in `s` at character position `i`.
pub fn tag_at(s: &str, n: usize, i: usize, pat: &str) -> (b: bool)
    requires
        n == s@.len(),
        i <= n,
    ensures
        b == matches_at(s@, i as int, pat@),
{
    let pn = pat.unicode_len();
    if pn > n - i {
        assert(!matches_at(s@, i as int, pat@));
        return false;
    }
    let mut j: usize = 0;
    while j < pn
        invariant
            n == s@.len(),
            pn == pat@.len(),
            i + pn <= n,
            j <= pn,
            forall|k: int| 0 <= k < j ==> s@[i + k] == pat@[k],
        decreases pn - j,
    {
        if s.get_char(i + j) != pat.get_char(j) {
            assert(s@.subrange(i as int, i + pn) != pat@) by {
                assert(s@.subrange(i as int, i + pn)[j as int] == s@[i + j]);
            }
            return false;
        }
        j += 1;
    }
    assert(s@.subrange(i as int, i + pn) =~= pat@);
    true
}

/// Whether two strings hold the same characters.
pub fn str_eq(a: &str, b: &str) -> (r: bool)
    ensures
        r == (a@ == b@),
{
    let na = a.unicode_len();
    let nb = b.unicode_len();
    if na != nb {
        return false;
    }
    let r = tag_at(a, na, 0, b);
    proof {
        assert(a@.subrange(0, a@.len() as int) =~= a@);
    }
    r
}

/// The character for a single decimal digit.
pub open spec fn dec_digit_char(d: int) -> char {
    if d == 0 {
        '0'
    } else if d == 1 {
        '1'
    } else if d == 2 {
        '2'
    } else if d == 3 {
        '3'
    } else if d == 4 {
        '4'
    } else if d == 5 {
        '5'
    } else if d == 6 {
        '6'
    } else if d == 7 {
        '7'
    } else if d == 8 {
        '8'
    } else {
        '9'
    }
}

/// The decimal digit string of a non-negative integer, without leading
/// zeros (except for zero itself).
pub open spec fn spec_dec(n: int) -> Seq<char>
    decreases n,
{
    if n < 10 {
        seq![dec_digit_char(n)]
    } else {
        spec_dec(n / 10).push(dec_digit_char(n % 10))
    }
}

fn dec_digit_of(d: u64) -> (c: char)
    requires
        d < 10,
    ensures
        c == dec_digit_char(d as int),
{
    match d {
        0 => '0',
        1 => '1',
        2 => '2',
        3 => '3',
        4 => '4',
        5 => '5',
        6 => '6',
        7 => '7',
        8 => '8',
        _ => '9',
    }
}

/// Appends the decimal digits of `n` to `out`.
pub fn push_dec(out: &mut String, n: u64)
    ensures
        final(out)@ == old(out)@ + spec_dec(n as int),
    decreases n,
{
    if n < 10 {
        push_char(out, dec_digit_of(n));
        assert(final(out)@ =~= old(out)@ + spec_dec(n as int));
    } else {
        push_dec(out, n / 10);
        push_char(out, dec_digit_of(n % 10));
        assert(final(out)@ =~= old(out)@ + spec_dec(n as int));
    }
}

/// The decimal digit string of `n` as a fresh `String`.
pub fn u64_to_dec(n: u64) -> (r: String)
    ensures
        r@ == spec_dec(n as int),
{
    let mut out = String::new();
    push_dec(&mut out, n);
    assert(out@ =~= spec_dec(n as int));
    out
}

/// Whether `c` is an ASCII decimal digit.
pub open spec fn is_digit(c: char) -> bool {
    48 <= (c as u32) && (c as u32) <= 57
}

/// The numeric value of an ASCII decimal digit.
pub open spec fn digit_val(c: char) -> int {
    (c as u32) - 48
}

/// Whether every character of `d` is an ASCII decimal digit.
pub open spec fn all_digits(d: Seq<char>) -> bool {
    forall|k: int| 0 <= k < d.len() ==> is_digit(#[trigger] d[k])
}

/// The numeric value of a digit string, most significant digit first.
pub open spec fn digits_val(d: Seq<char>) -> int
    decreases d.len(),
{
    if d.len() == 0 {
        0
    } else {
        digits_val(d.drop_last()) * 10 + digit_val(d.last())
    }
}

/// The value of a digit string is non-negative.
pub proof fn lemma_digits_val_nonneg(d: Seq<char>)
    requires
        all_digits(d),
    ensures
        digits_val(d) >= 0,
    decreases d.len(),
{
    if d.len() > 0 {
        assert(all_digits(d.drop_last())) by {
            assert(forall|k: int| 0 <= k < d.len() - 1 ==> d.drop_last()[k] == d[k]);
        }
        lemma_digits_val_nonneg(d.drop_last());
    }
}

/// Extending a digit string never decreases its value.
pub proof fn lemma_digits_val_prefix_le(d: Seq<char>, m: int)
    requires
        all_digits(d),
        0 <= m <= d.len(),
    ensures
        digits_val(d.take(m)) <= digits_val(d),
    decreases d.len() - m,
{
    if m < d.len() {
        lemma_digits_val_prefix_le(d, m + 1);
        assert(d.take(m + 1).drop_last() =~= d.take(m));
        assert(all_digits(d.take(m))) by {
            assert(forall|k: int| 0 <= k < m ==> d.take(m)[k] == d[k]);
        }
        lemma_digits_val_nonneg(d.take(m));
        assert(digits_val(d.take(m + 1)) == digits_val(d.take(m)) * 10 + digit_val(d[m]));
    } else {
        assert(d.take(m) =~= d);
    }
}

/// What parsing an unsigned 16-bit number from a string yields: an
/// optional leading `+`, then one or more decimal digits whose value
/// fits; anything else fails.
pub open spec fn spec_parse_u16(s: Seq<char>) -> Option<u16> {
    let d = if s.len() > 0 && s[0] == '+' {
        s.skip(1)
    } else {
        s
    };
    if d.len() > 0 && all_digits(d) && digits_val(d) <= 65535 {
        Some(digits_val(d) as u16)
    } else {
        None
    }
}

/// Parses an unsigned 16-bit number the way `str::parse::<u16>` does.
#[verifier::loop_isolation(false)]
pub fn parse_u16(s: &str) -> (r: Option<u16>)
    ensures
        r == spec_parse_u16(s@),
{
    let n = s.unicode_len();
    let mut i: usize = 0;
    if n > 0 && s.get_char(0) == '+' {
        i = 1;
    }
    let ghost d = if s@.len() > 0 && s@[0] == '+' {
        s@.skip(1)
    } else {
        s@
    };
    assert(d.len() == n - i);
    assert(forall|k: int| 0 <= k < d.len() ==> d[k] == s@[k + i]);
    if i >= n {
        return None;
    }
    let mut j: usize = i;
    while j < n
        invariant
            n == s@.len(),
            i <= j <= n,
            d.len() == n - i,
            forall|k: int| 0 <= k < d.len() ==> d[k] == s@[k + i],
            forall|k: int| 0 <= k < j - i ==> is_digit(#[trigger] d[k]),
        decreases n - j,
    {
        let c = s.get_char(j);
        let u = c as u32;
        if !(48 <= u && u <= 57) {
            assert(!is_digit(d[j - i]));
            assert(!all_digits(d));
            return None;
        }
        j += 1;
    }
    assert(all_digits(d));
    let mut acc: u32 = 0;
    let mut m: usize = i;
    while m < n
        invariant
            n == s@.len(),
            i <= m <= n,
            d.len() == n - i,
            forall|k: int| 0 <= k < d.len() ==> d[k] == s@[k + i],
            all_digits(d),
            acc <= 65535,
            acc == digits_val(d.take(m - i)),
        decreases n - m,
    {
        let c = s.get_char(m);
        let u = c as u32;
        assert(is_digit(d[m - i]));
        assert(48 <= u && u <= 57);
        let next: u32 = acc * 10 + (u - 48);
        proof {
            assert(d.take(m - i + 1).drop_last() =~= d.take(m - i));
            assert(digits_val(d.take(m - i + 1)) == digits_val(d.take(m - i)) * 10 + digit_val(
                d[m - i],
            ));
        }
        if next > 65535 {
            proof {
                lemma_digits_val_prefix_le(d, m - i + 1);
                assert(digits_val(d.take(m - i + 1)) == next);
                assert(digits_val(d) > 65535);
            }
            return None;
        }
        acc = next;
        m += 1;
    }
    assert(d.take(n - i) =~= d);
    Some(acc as u16)
}

/// The index of the first occurrence of `sep` in `s`, or the length of
/// `s` when it does not occur.
pub open spec fn first_index(s: Seq<char>, sep: char) -> int
    decreases s.len(),
{
    if s.len() == 0 {
        0
    } else if s[0] == sep {
        0
    } else {
        1 + first_index(s.drop_first(), sep)
    }
}

/// Lexicographic order on character sequences by code point — the
/// order `String` comparison induces.
pub open spec fn str_lt(a: Seq<char>, b: Seq<char>) -> bool
    decreases a.len(),
{
    if b.len() == 0 {
        false
    } else if a.len() == 0 {
        true
    } else if a[0] < b[0] {
        true
    } else if b[0] < a[0] {
        false
    } else {
        str_lt(a.drop_first(), b.drop_first())
    }
}

/// Nothing is lexicographically below itself.
pub proof fn lemma_str_lt_irrefl(a: Seq<char>)
    ensures
        !str_lt(a, a),
    decreases a.len(),
{
    if a.len() > 0 {
        lemma_str_lt_irrefl(a.drop_first());
    }
}

/// Any two character sequences are ordered or equal.
pub proof fn lemma_str_lt_connex(a: Seq<char>, b: Seq<char>)
    ensures
        str_lt(a, b) || str_lt(b, a) || a == b,
    decreases a.len(),
{
    if a.len() == 0 {
        if b.len() == 0 {
            assert(a =~= b);
        }
    } else if b.len() > 0 && a[0] == b[0] {
        lemma_str_lt_connex(a.drop_first(), b.drop_first());
        if a.drop_first() == b.drop_first() {
            assert(a.len() == b.len());
            assert forall|k: int| 0 <= k < a.len() implies a[k] == b[k] by {
                if k >= 1 {
                    assert(a.drop_first()[k - 1] == a[k]);
                    assert(b.drop_first()[k - 1] == b[k]);
                }
            }
            assert(a =~= b);
        } else if str_lt(a.drop_first(), b.drop_first()) {
            assert(str_lt(a, b));
        } else {
            assert(str_lt(b.drop_first(), a.drop_first()));
            assert(str_lt(b, a));
        }
    }
}

/// Lexicographic order is transitive.
pub proof fn lemma_str_lt_trans(a: Seq<char>, b: Seq<char>, c: Seq<char>)
    requires
        str_lt(a, b),
        str_lt(b, c),
    ensures
        str_lt(a, c),
    decreases a.len() + b.len() + c.len(),
{
    if a.len() > 0 && b.len() > 0 && c.len() > 0 {
        if a[0] == b[0] && b[0] == c[0] {
            lemma_str_lt_trans(a.drop_first(), b.drop_first(), c.drop_first());
        }
    }
}

/// Compares two strings lexicographically by code point.
#[verifier::loop_isolation(false)]
pub fn str_lt_str(a: &str, b: &str) -> (r: bool)
    ensures
        r == str_lt(a@, b@),
{
    let na = a.unicode_len();
    let nb = b.unicode_len();
    let mut idx: usize = 0;
    proof {
        assert(a@.skip(0) =~= a@);
        assert(b@.skip(0) =~= b@);
    }
    while idx < na && idx < nb
        invariant
            idx <= na,
            idx <= nb,
            str_lt(a@, b@) == str_lt(a@.skip(idx as int), b@.skip(idx as int)),
        decreases na - idx,
    {
        let ca = a.get_char(idx);
        let cb = b.get_char(idx);
        if ca < cb {
            return true;
        }
        if cb < ca {
            return false;
        }
        proof {
            assert(a@.skip(idx as int).drop_first() =~= a@.skip(idx as int + 1));
            assert(b@.skip(idx as int).drop_first() =~= b@.skip(idx as int + 1));
        }
        idx += 1;
    }
    if idx >= nb {
        assert(b@.skip(idx as int).len() == 0);
        return false;
    }
    assert(a@.skip(idx as int).len() == 0);
    assert(b@.skip(idx as int).len() > 0);
    true
}

/// The characterizing facts of `first_index`: it is in range, it
/// points at `sep` when `sep` occurs, and nothing before it is `sep`.
pub proof fn lemma_first_index_props(s: Seq<char>, sep: char)
    ensures
        0 <= first_index(s, sep) <= s.len(),
        first_index(s, sep) < s.len() ==> s[first_index(s, sep)] == sep,
        forall|j: int| 0 <= j < first_index(s, sep) ==> s[j] != sep,
    decreases s.len(),
{
    if s.len() > 0 && s[0] != sep {
        lemma_first_index_props(s.drop_first(), sep);
        assert forall|j: int| 0 <= j < first_index(s, sep) implies s[j] != sep by {
            if j > 0 {
                assert(s.drop_first()[j - 1] == s[j]);
            }
        }
    }
}

} // verus!

