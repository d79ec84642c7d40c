//! Byte-string helpers shared by the codec and the router, each stated over
//! `Seq<u8>`.
use vstd::prelude::*;

verus! {

/// `s` begins with `p`.
pub open spec fn has_prefix(s: Seq<u8>, p: Seq<u8>) -> bool {
    p.len() <= s.len() && s.subrange(0, p.len() as int) == p
}

/// A line with its terminator removed: a final `\n`, and a `\r` just before it.
pub open spec fn strip_eol(line: Seq<u8>) -> Seq<u8> {
    if line.len() > 0 && line.last() == 10u8 {
        let l = line.drop_last();
        if l.len() > 0 && l.last() == 13u8 {
            l.drop_last()
        } else {
            l
        }
    } else {
        line
    }
}

/// Copies `s[lo..hi]` into a fresh vector.
pub fn copy_range(s: &[u8], lo: usize, hi: usize) -> (r: Vec<u8>)
    requires
        lo <= hi <= s@.len(),
    ensures
        r@ == s@.subrange(lo as int, hi as int),
{
    let mut r: Vec<u8> = Vec::new();
    let mut i: usize = lo;
    while i < hi
        invariant
            lo <= i <= hi <= s@.len(),
            r@ == s@.subrange(lo as int, i as int),
        decreases hi - i,
    {
        r.push(s[i]);
        i = i + 1;
    }
    r
}

/// Appends the bytes of `s` to `out`.
pub fn append(out: &mut Vec<u8>, s: &[u8])
    ensures
        final(out)@ == old(out)@ + s@,
{
    let mut i: usize = 0;
    while i < s.len()
        invariant
            i <= s@.len(),
            out@ == old(out)@ + s@.subrange(0, i as int),
        decreases s@.len() - i,
    {
        out.push(s[i]);
        i = i + 1;
        assert(out@ =~= old(out)@ + s@.subrange(0, i as int));
    }
    assert(s@.subrange(0, i as int) =~= s@);
}

/// Whether `a` and `b` hold the same bytes.
pub fn bytes_equal(a: &[u8], b: &[u8]) -> (r: bool)
    ensures
        r == (a@ == b@),
{
    if a.len() != b.len() {
        return false;
    }
    let r = starts_with(a, b);
    assert(a@.subrange(0, b@.len() as int) =~= a@);
    r
}

/// Whether `s` begins with `p`.
pub fn starts_with(s: &[u8], p: &[u8]) -> (r: bool)
    ensures
        r == has_prefix(s@, p@),
{
    if p.len() > s.len() {
        return false;
    }
    let mut i: usize = 0;
    while i < p.len()
        invariant
            p@.len() <= s@.len(),
            i <= p@.len(),
            s@.subrange(0, i as int) == p@.subrange(0, i as int),
        decreases p@.len() - i,
    {
        if s[i] != p[i] {
            assert(s@.subrange(0, p@.len() as int)[i as int] != p@[i as int]);
            return false;
        }
        assert(s@.subrange(0, i + 1) =~= s@.subrange(0, i as int).push(s@[i as int]));
        assert(p@.subrange(0, i + 1) =~= p@.subrange(0, i as int).push(p@[i as int]));
        i = i + 1;
    }
    assert(p@.subrange(0, p@.len() as int) =~= p@);
    true
}

/// A line as it was read, with its terminator removed.
pub fn trim_line_ending(line: &[u8]) -> (r: Vec<u8>)
    ensures
        r@ == strip_eol(line@),
{
    let n = line.len();
    if n > 0 && line[n - 1] == 10u8 {
        if n > 1 && line[n - 2] == 13u8 {
            copy_range(line, 0, n - 2)
        } else {
            copy_range(line, 0, n - 1)
        }
    } else {
        copy_range(line, 0, n)
    }
}

/// ASCII whitespace, the separator of the tokens on a request line and in a header.
pub open spec fn is_space(b: u8) -> bool {
    b == 32u8 || b == 9u8 || b == 10u8 || b == 11u8 || b == 12u8 || b == 13u8
}

/// Length of the run of non-space bytes that `s` starts with.
pub open spec fn word_len(s: Seq<u8>) -> nat
    decreases s.len(),
{
    if s.len() == 0 || is_space(s[0]) {
        0
    } else {
        1 + word_len(s.drop_first())
    }
}

/// The maximal runs of non-space bytes of `s`, in order.
pub open spec fn tokens(s: Seq<u8>) -> Seq<Seq<u8>>
    decreases s.len(),
{
    if s.len() == 0 {
        seq![]
    } else if is_space(s[0]) {
        tokens(s.drop_first())
    } else {
        proof {
            lemma_word_len_bounds(s);
        }
        seq![s.take(word_len(s) as int)] + tokens(s.skip(word_len(s) as int))
    }
}

/// A word is no longer than the sequence, and is non-empty when the first byte is no space.
pub proof fn lemma_word_len_bounds(s: Seq<u8>)
    ensures
        word_len(s) <= s.len(),
        s.len() > 0 && !is_space(s[0]) ==> word_len(s) >= 1,
    decreases s.len(),
{
    if s.len() > 0 && !is_space(s[0]) {
        lemma_word_len_bounds(s.drop_first());
    }
}

/// The `n`-th whitespace-separated token of `s`.
pub open spec fn nth_token(s: Seq<u8>, n: int) -> Option<Seq<u8>> {
    if 0 <= n < tokens(s).len() {
        Some(tokens(s)[n])
    } else {
        None
    }
}

/// The `n`-th whitespace-separated token of `s`, if `s` has that many.
pub fn token_at(s: &[u8], n: usize) -> (r: Option<Vec<u8>>)
    ensures
        r matches Some(t) ==> nth_token(s@, n as int) == Some(t@),
        r is None ==> nth_token(s@, n as int) is None,
{
    let ghost seen: Seq<Seq<u8>> = seq![];
    let mut k: usize = 0;
    let mut i: usize = 0;
    assert(s@.skip(0) =~= s@);
    while i < s.len()
        invariant
            i <= s@.len(),
            k <= n,
            seen.len() == k,
            tokens(s@) == seen + tokens(s@.skip(i as int)),
        decreases s@.len() - i,
    {
        let ghost rest = s@.skip(i as int);
        assert(rest.drop_first() =~= s@.skip(i + 1));
        if s[i] == 32u8 || s[i] == 9u8 || s[i] == 10u8 || s[i] == 11u8 || s[i] == 12u8 || s[i]
            == 13u8 {
            i = i + 1;
        } else {
            let mut j: usize = i;
            while j < s.len() && !(s[j] == 32u8 || s[j] == 9u8 || s[j] == 10u8 || s[j] == 11u8
                || s[j] == 12u8 || s[j] == 13u8)
                invariant
                    i <= j <= s@.len(),
                    word_len(rest) == (j - i) + word_len(s@.skip(j as int)),
                    rest == s@.skip(i as int),
                decreases s@.len() - j,
            {
                assert(s@.skip(j as int).drop_first() =~= s@.skip(j + 1));
                j = j + 1;
            }
            proof {
                lemma_word_len_bounds(rest);
                assert(rest.take(word_len(rest) as int) =~= s@.subrange(i as int, j as int));
                assert(rest.skip(word_len(rest) as int) =~= s@.skip(j as int));
                assert(tokens(rest) == seq![s@.subrange(i as int, j as int)] + tokens(
                    s@.skip(j as int),
                ));
            }
            if k == n {
                let t = copy_range(s, i, j);
                assert((seen + tokens(rest))[n as int] == tokens(rest)[0]);
                return Some(t);
            }
            proof {
                assert(seen + tokens(rest) =~= seen.push(s@.subrange(i as int, j as int)) + tokens(
                    s@.skip(j as int),
                ));
                seen = seen.push(s@.subrange(i as int, j as int));
            }
            k = k + 1;
            i = j;
        }
    }
    assert(s@.skip(i as int) =~= Seq::<u8>::empty());
    assert(tokens(s@) =~= seen);
    None
}

/// ASCII decimal digit.
pub open spec fn is_digit(b: u8) -> bool {
    48u8 <= b <= 57u8
}

/// The value of a string of decimal digits, most significant first.
pub open spec fn digits_value(s: Seq<u8>) -> nat
    decreases s.len(),
{
    if s.len() == 0 {
        0
    } else {
        digits_value(s.drop_last()) * 10 + (s.last() - 48u8) as nat
    }
}

/// Every byte of `d` is a decimal digit.
pub open spec fn all_digits(d: Seq<u8>) -> bool {
    forall|i: int| 0 <= i < d.len() ==> is_digit(#[trigger] d[i])
}

/// `s` without the `+` sign that it may start with.
pub open spec fn unsigned_part(s: Seq<u8>) -> Seq<u8> {
    if s.len() > 0 && s[0] == 43u8 {
        s.drop_first()
    } else {
        s
    }
}

/// The unsigned decimal number that `s` spells: an optional `+`, then one or
/// more digits and nothing else.
pub open spec fn parse_nat(s: Seq<u8>) -> Option<nat> {
    let d = unsigned_part(s);
    if d.len() > 0 && all_digits(d) {
        Some(digits_value(d))
    } else {
        None
    }
}

/// A longer string of digits is worth at least as much as its prefix.
proof fn lemma_digits_value_prefix(s: Seq<u8>, k: int)
    requires
        0 <= k <= s.len(),
        all_digits(s),
    ensures
        digits_value(s) >= digits_value(s.take(k)),
    decreases s.len(),
{
    if k < s.len() {
        assert(s.drop_last().take(k) =~= s.take(k));
        lemma_digits_value_prefix(s.drop_last(), k);
    } else {
        assert(s.take(k) =~= s);
    }
}

/// Parses `s` as a `usize` written in decimal; `None` where it is no such
/// number or does not fit.
pub fn parse_usize(s: &[u8]) -> (r: Option<usize>)
    ensures
        r is Some <==> (parse_nat(s@) is Some && parse_nat(s@)->0 <= usize::MAX),
        r matches Some(v) ==> parse_nat(s@) == Some(v as nat),
{
    let start: usize = if s.len() > 0 && s[0] == 43u8 {
        1
    } else {
        0
    };
    let ghost d = s@.skip(start as int);
    assert(d =~= unsigned_part(s@));
    if start >= s.len() {
        return None;
    }
    let mut acc: usize = 0;
    let mut i: usize = start;
    while i < s.len()
        invariant
            start <= i <= s@.len(),
            start < s@.len(),
            d == s@.skip(start as int),
            d == unsigned_part(s@),
            forall|x: int| 0 <= x < i - start ==> is_digit(#[trigger] d[x]),
            acc as nat == digits_value(d.take(i - start)),
        decreases s@.len() - i,
    {
        let b = s[i];
        if b < 48u8 || b > 57u8 {
            assert(!is_digit(d[i - start]));
            return None;
        }
        assert(d.take(i - start + 1).drop_last() =~= d.take(i - start));
        let digit: usize = (b - 48u8) as usize;
        assert(digits_value(d.take(i - start + 1)) == acc * 10 + digit);
        let next = match acc.checked_mul(10) {
            Some(m) => m.checked_add(digit),
            None => None,
        };
        match next {
            Some(v) => {
                acc = v;
            },
            None => {
                proof {
                    if all_digits(d) {
                        lemma_digits_value_prefix(d, i - start + 1);
                    }
                }
                return None;
            },
        }
        i = i + 1;
    }
    assert(d.take(d.len() as int) =~= d);
    Some(acc)
}

/// The decimal digits of `n`, most significant first, without leading zeros.
pub open spec fn decimal(n: nat) -> Seq<u8>
    decreases n,
{
    if n < 10 {
        seq![(48 + n) as u8]
    } else {
        decimal(n / 10).push((48 + n % 10) as u8)
    }
}

/// Appends the decimal digits of `n` to `out`.
pub fn push_decimal(out: &mut Vec<u8>, n: usize)
    ensures
        final(out)@ == old(out)@ + decimal(n as nat),
    decreases n,
{
    if n >= 10 {
        push_decimal(out, n / 10);
    }
    out.push((48 + n % 10) as u8);
    assert(final(out)@ =~= old(out)@ + decimal(n as nat));
}

/// `needle` occurs in `s` at position `i`.
pub open spec fn occurs_at(s: Seq<u8>, needle: Seq<u8>, i: int) -> bool {
    0 <= i && i + needle.len() <= s.len() && s.subrange(i, i + needle.len()) == needle
}

/// `needle` occurs somewhere in `s`.
pub open spec fn occurs_in(s: Seq<u8>, needle: Seq<u8>) -> bool {
    exists|i: int| occurs_at(s, needle, i)
}

/// Relies on nom's `FindSubstring` for byte slices, which returns the first
/// position at which `needle` occurs in `s`, or `None` where it occurs nowhere.
#[verifier::external_body]
fn find_substring(s: &[u8], needle: &[u8]) -> (r: Option<usize>)
    ensures
        r matches Some(i) ==> occurs_at(s@, needle@, i as int),
        r matches Some(i) ==> forall|j: int| 0 <= j < i ==> !occurs_at(s@, needle@, j),
        r is None ==> forall|j: int| !occurs_at(s@, needle@, j),
{
    nom::FindSubstring::find_substring(&s, needle)
}

/// Whether `needle` occurs anywhere in `s`.
pub fn contains_bytes(s: &[u8], needle: &[u8]) -> (r: bool)
    ensures
        r == occurs_in(s@, needle@),
{
    match find_substring(s, needle) {
        Some(i) => {
            assert(occurs_at(s@, needle@, i as int));
            true
        },
        None => false,
    }
}

} // verus!
