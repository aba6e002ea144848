//! Small text utilities shared by the codec and the worker: verified string
//! comparison and concatenation, and printing and parsing of decimal numbers.
use vstd::prelude::*;
use vstd::string::StrSliceExecFns;

verus! {

/// Relies on `String::push_str`: appends the characters of `t` to `s`.
#[verifier::external_body]
pub(crate) fn append_str(s: &mut String, t: &str)
    ensures
        final(s)@ == old(s)@ + t@,
{
    s.push_str(t);
}

/// The concatenation of two string slices as a fresh `String`.
pub fn concat_str(a: &str, b: &str) -> (r: String)
    ensures
        r@ == a@ + b@,
{
    let mut s = a.to_owned();
    append_str(&mut s, b);
    s
}

/// True exactly when the two slices hold the same characters.
pub fn str_eq(a: &str, b: &str) -> (r: bool)
    ensures
        r <==> a@ == b@,
{
    let na = a.unicode_len();
    let nb = b.unicode_len();
    if na != nb {
        return false;
    }
    let mut i: usize = 0;
    while i < na
        invariant
            na == a@.len(),
            nb == b@.len(),
            na == nb,
            0 <= i <= na,
            forall|j: int| 0 <= j < i ==> a@[j] == b@[j],
        decreases na - i,
    {
        let ca = a.get_char(i);
        let cb = b.get_char(i);
        if ca != cb {
            return false;
        }
        i += 1;
    }
    proof {
        assert(a@ =~= b@);
    }
    true
}

/// Relies on `String::push`: appends one character to the string.
#[verifier::external_body]
pub(crate) fn push_char(s: &mut String, c: char)
    ensures
        final(s)@ == old(s)@ + seq![c],
{
    s.push(c);
}

/// True when `s` begins with the characters of `pat`.
pub open spec fn has_prefix(s: Seq<char>, pat: Seq<char>) -> bool {
    pat.len() <= s.len() && s.subrange(0, pat.len() as int) == pat
}

/// True exactly when `s` starts with `pat`.
pub fn str_starts_with(s: &str, pat: &str) -> (r: bool)
    ensures
        r <==> has_prefix(s@, pat@),
{
    let n = pat.unicode_len();
    let sn = s.unicode_len();
    if n > sn {
        return false;
    }
    let mut i: usize = 0;
    while i < n
        invariant
            n == pat@.len(),
            sn == s@.len(),
            n <= sn,
            0 <= i <= n,
            forall|j: int| 0 <= j < i ==> s@[j] == pat@[j],
        decreases n - i,
    {
        if s.get_char(i) != pat.get_char(i) {
            proof {
                assert(s@.subrange(0, pat@.len() as int)[i as int] != pat@[i as int]);
            }
            return false;
        }
        i += 1;
    }
    proof {
        assert(s@.subrange(0, pat@.len() as int) =~= pat@);
    }
    true
}

/// The characters of `s` from `from` (inclusive) to `to` (exclusive), as a
/// fresh `String`.
pub fn char_substring(s: &str, from: usize, to: usize) -> (r: String)
    requires
        from <= to <= s@.len(),
    ensures
        r@ == s@.subrange(from as int, to as int),
{
    let mut out = String::new();
    let mut i = from;
    while i < to
        invariant
            from <= i <= to <= s@.len(),
            out@ == s@.subrange(from as int, i as int),
        decreases to - i,
    {
        let c = s.get_char(i);
        push_char(&mut out, c);
        proof {
            assert(out@ =~= s@.subrange(from as int, i as int + 1));
        }
        i += 1;
    }
    proof {
        assert(out@ =~= s@.subrange(from as int, to as int));
    }
    out
}

/// The bytes of a string of ASCII characters (non-ASCII characters are
/// truncated; every string this library writes is ASCII).
pub open spec fn lit_bytes(s: Seq<char>) -> Seq<u8> {
    s.map_values(|c: char| c as u8)
}

/// Appends the bytes of the ASCII string `s` to `out`.
pub fn push_ascii(out: &mut Vec<u8>, s: &str)
    ensures
        final(out)@ == old(out)@ + lit_bytes(s@),
{
    let n = s.unicode_len();
    let mut i: usize = 0;
    while i < n
        invariant
            n == s@.len(),
            0 <= i <= n,
            out@ == old(out)@ + lit_bytes(s@).subrange(0, i as int),
        decreases n - i,
    {
        let c = s.get_char(i);
        out.push(#[verifier::truncate] (c as u8));
        proof {
            assert(out@ =~= old(out)@ + lit_bytes(s@).subrange(0, i as int + 1));
        }
        i += 1;
    }
    proof {
        assert(lit_bytes(s@).subrange(0, n as int) =~= lit_bytes(s@));
    }
}

/// True exactly when the bytes of `data` starting at `at` spell the ASCII
/// pattern `pat` in full.
pub fn bytes_match_at(data: &[u8], at: usize, pat: &str) -> (r: bool)
    ensures
        r <==> (at + pat@.len() <= data@.len() && data@.subrange(
            at as int,
            at + pat@.len(),
        ) == lit_bytes(pat@)),
{
    let n = pat.unicode_len();
    let dl = data.len();
    if at > dl || n > dl - at {
        return false;
    }
    let mut j: usize = 0;
    while j < n
        invariant
            n == pat@.len(),
            dl == data@.len(),
            at + n <= dl,
            0 <= j <= n,
            forall|k: int| 0 <= k < j ==> data@[at + k] == lit_bytes(pat@)[k],
        decreases n - j,
    {
        let c = pat.get_char(j);
        if *vstd::slice::slice_index_get(data, at + j) != (#[verifier::truncate] (c as u8)) {
            proof {
                assert(data@.subrange(at as int, at + pat@.len())[j as int] != lit_bytes(pat@)[
                    j as int]);
            }
            return false;
        }
        j += 1;
    }
    proof {
        assert(data@.subrange(at as int, at + pat@.len()) =~= lit_bytes(pat@));
    }
    true
}

/// The decimal digits of `n`, most significant first, as ASCII bytes.
pub open spec fn dec_digits(n: nat) -> Seq<u8>
    decreases n,
{
    if n < 10 {
        seq![(48 + n) as u8]
    } else {
        dec_digits(n / 10).push((48 + n % 10) as u8)
    }
}

/// The number denoted by a sequence of ASCII digits, most significant first.
pub open spec fn dec_value(s: Seq<u8>) -> int
    decreases s.len(),
{
    if s.len() == 0 {
        0
    } else {
        10 * dec_value(s.drop_last()) + (s.last() - 48)
    }
}

/// True when `b` is an ASCII decimal digit.
pub open spec fn is_digit(b: u8) -> bool {
    48 <= b <= 57
}

/// True when every byte of `s` is an ASCII decimal digit.
pub open spec fn all_digits(s: Seq<u8>) -> bool {
    forall|i: int| 0 <= i < s.len() ==> is_digit(#[trigger] s[i])
}

/// Every printed number is a non-empty, digits-only sequence.
pub proof fn lemma_dec_digits_shape(n: nat)
    ensures
        dec_digits(n).len() >= 1,
        all_digits(dec_digits(n)),
    decreases n,
{
    if n >= 10 {
        lemma_dec_digits_shape(n / 10);
    }
}

/// Printing and then parsing a number gives the number back.
pub proof fn lemma_dec_digits_value(n: nat)
    ensures
        dec_value(dec_digits(n)) == n,
    decreases n,
{
    if n < 10 {
        let s = dec_digits(n);
        assert(s.drop_last() =~= Seq::<u8>::empty());
        assert(dec_value(Seq::<u8>::empty()) == 0);
        assert(dec_value(s) == 10 * dec_value(s.drop_last()) + (s.last() - 48));
    } else {
        lemma_dec_digits_value(n / 10);
        lemma_dec_value_push(dec_digits(n / 10), (48 + n % 10) as u8);
    }
}

/// Appending a digit on the right multiplies the value by ten and adds it.
proof fn lemma_dec_value_push(s: Seq<u8>, b: u8)
    ensures
        dec_value(s.push(b)) == 10 * dec_value(s) + (b - 48),
{
    assert(s.push(b).drop_last() =~= s);
}

/// A digits-only sequence denotes a value no smaller than any of its prefixes.
proof fn lemma_dec_value_prefix_le(s: Seq<u8>, i: int)
    requires
        all_digits(s),
        0 <= i <= s.len(),
    ensures
        dec_value(s.subrange(0, i)) <= dec_value(s),
    decreases s.len() - i,
{
    if i < s.len() {
        lemma_dec_value_prefix_le(s, i + 1);
        assert(s.subrange(0, i + 1).drop_last() =~= s.subrange(0, i));
        assert(dec_value(s.subrange(0, i)) >= 0) by {
            lemma_dec_value_nonneg(s.subrange(0, i));
        }
    } else {
        assert(s.subrange(0, i) =~= s);
    }
}

/// A digits-only sequence denotes a non-negative value.
proof fn lemma_dec_value_nonneg(s: Seq<u8>)
    requires
        all_digits(s),
    ensures
        dec_value(s) >= 0,
    decreases s.len(),
{
    if s.len() > 0 {
        lemma_dec_value_nonneg(s.drop_last());
    }
}

/// Appends the decimal digits of `n` to `out`.
pub fn push_decimal(out: &mut Vec<u8>, n: u64)
    ensures
        final(out)@ == old(out)@ + dec_digits(n as nat),
    decreases n,
{
    if n < 10 {
        out.push((48 + n) as u8);
        assert(out@ =~= old(out)@ + dec_digits(n as nat));
    } else {
        push_decimal(out, n / 10);
        out.push((48 + (n % 10)) as u8);
        assert(out@ =~= old(out)@ + dec_digits(n as nat));
    }
}

/// The decimal digits of `n` as characters.
pub open spec fn dec_chars(n: nat) -> Seq<char> {
    dec_digits(n).map_values(|b: u8| b as char)
}

/// Renders `n` in decimal.
pub fn decimal_string(n: u64) -> (r: String)
    ensures
        r@ == dec_chars(n as nat),
{
    let mut digits: Vec<u8> = Vec::new();
    push_decimal(&mut digits, n);
    let mut out = String::new();
    let nd = digits.len();
    let mut i: usize = 0;
    while i < nd
        invariant
            nd == digits@.len(),
            digits@ == dec_digits(n as nat),
            0 <= i <= nd,
            out@ == dec_chars(n as nat).subrange(0, i as int),
        decreases nd - i,
    {
        let b = digits[i];
        push_char(&mut out, b as char);
        proof {
            assert(out@ =~= dec_chars(n as nat).subrange(0, i as int + 1));
        }
        i += 1;
    }
    proof {
        assert(out@ =~= dec_chars(n as nat));
    }
    out
}

/// The digits of a decimal token: the token with one leading plus sign, if
/// it has one, removed.
pub open spec fn digits_part(s: Seq<u8>) -> Seq<u8> {
    if s.len() > 0 && s[0] == 43 {
        s.skip(1)
    } else {
        s
    }
}

/// Parses an ASCII decimal number. Returns the value exactly when the whole
/// slice is one or more digits, after an optional leading plus sign, and
/// the value fits in `usize`; anything else (empty, a bare sign, a stray
/// byte, overflow) gives `None`.
pub fn parse_usize(s: &[u8]) -> (r: Option<usize>)
    ensures
        ({
            let d = digits_part(s@);
            match r {
                Some(v) => d.len() > 0 && all_digits(d) && v == dec_value(d),
                None => !(d.len() > 0 && all_digits(d) && dec_value(d) <= usize::MAX),
            }
        }),
{
    let n = s.len();
    let start: usize = if n > 0 && *vstd::slice::slice_index_get(s, 0) == 43 {
        1
    } else {
        0
    };
    let ghost dseq = digits_part(s@);
    proof {
        assert(dseq =~= s@.skip(start as int));
    }
    if n == start {
        return None;
    }
    let mut acc: usize = 0;
    let mut i: usize = start;
    while i < n
        invariant
            n == s@.len(),
            start <= i <= n,
            dseq == digits_part(s@),
            dseq =~= s@.skip(start as int),
            forall|j: int| start <= j < i ==> is_digit(#[trigger] s@[j]),
            acc == dec_value(dseq.subrange(0, i - start)),
        decreases n - i,
    {
        let b = *vstd::slice::slice_index_get(s, i);
        proof {
            assert(dseq[i - start] == s@[i as int]);
        }
        if b < 48 || b > 57 {
            proof {
                assert(!is_digit(dseq[i - start]));
            }
            return None;
        }
        let d = (b - 48) as usize;
        if acc > (usize::MAX - d) / 10 {
            proof {
                assert(all_digits(dseq.subrange(0, i - start + 1))) by {
                    assert(forall|j: int|
                        0 <= j < i - start + 1 ==> #[trigger] dseq.subrange(0, i - start + 1)[j]
                            == s@[start + j]);
                }
                assert(dec_value(dseq.subrange(0, i - start + 1)) > usize::MAX) by {
                    assert(dseq.subrange(0, i - start + 1).drop_last() =~= dseq.subrange(
                        0,
                        i - start,
                    ));
                    assert(acc * 10 + d > usize::MAX) by (nonlinear_arith)
                        requires
                            acc > (usize::MAX - d) / 10,
                            0 <= d <= 9,
                    ;
                }
                if all_digits(dseq) {
                    lemma_dec_value_prefix_le(dseq, i - start + 1);
                }
            }
            return None;
        }
        proof {
            assert(acc * 10 + d <= usize::MAX) by (nonlinear_arith)
                requires
                    acc <= (usize::MAX - d) / 10,
                    0 <= d <= 9,
            ;
            lemma_dec_value_push(dseq.subrange(0, i - start), b);
            assert(dseq.subrange(0, i - start).push(b) =~= dseq.subrange(0, i - start + 1));
        }
        acc = acc * 10 + d;
        i += 1;
    }
    proof {
        assert(dseq.subrange(0, n - start) =~= dseq);
        assert(all_digits(dseq)) by {
            assert(forall|j: int| 0 <= j < dseq.len() ==> #[trigger] dseq[j] == s@[start + j]);
        }
    }
    Some(acc)
}

} // verus!
