//! Byte-level text primitives shared by the pseudo-file parsers.
//!
//! The pseudo-files this crate reads are machine-generated ASCII tables:
//! lines separated by `\n`, fields separated by runs of spaces or tabs,
//! numbers written in decimal.  The spec functions here give those three
//! notions a mathematical definition, and the executable helpers are
//! proved to compute exactly them.

use vstd::prelude::*;

verus! {

/// Field separator: space or horizontal tab.
pub open spec fn is_ws(b: u8) -> bool {
    b == 32 || b == 9
}

/// ASCII decimal digit.
pub open spec fn is_digit(b: u8) -> bool {
    48 <= b && b <= 57
}

/// Every byte is a decimal digit.
pub open spec fn all_digits(s: Seq<u8>) -> bool {
    forall|i: int| 0 <= i < s.len() ==> is_digit(#[trigger] s[i])
}

/// The value of a digit string, most significant digit first.
pub open spec fn digits_val(s: Seq<u8>) -> nat
    decreases s.len(),
{
    if s.len() == 0 {
        0
    } else {
        digits_val(s.drop_last()) * 10 + (s.last() - 48) as nat
    }
}

/// A digit string is worth at least any of its prefixes.
pub proof fn lemma_digits_val_prefix_le(s: Seq<u8>, i: int)
    requires
        0 <= i <= s.len(),
    ensures
        digits_val(s.take(i)) <= digits_val(s),
    decreases s.len() - i,
{
    if i < s.len() {
        lemma_digits_val_prefix_le(s, i + 1);
        assert(s.take(i + 1).drop_last() =~= s.take(i));
        assert(digits_val(s.take(i)) <= digits_val(s.take(i + 1)));
    } else {
        assert(s.take(i) =~= s);
    }
}

/// How many leading bytes of `s` are not the given separator.
pub open spec fn len_until(s: Seq<u8>, sep: u8) -> nat
    decreases s.len(),
{
    if s.len() == 0 || s[0] == sep {
        0
    } else {
        1 + len_until(s.drop_first(), sep)
    }
}

pub proof fn lemma_len_until_le(s: Seq<u8>, sep: u8)
    ensures
        len_until(s, sep) <= s.len(),
    decreases s.len(),
{
    if s.len() > 0 && s[0] != sep {
        lemma_len_until_le(s.drop_first(), sep);
    }
}

/// `len_until` is exactly the position of the first separator (or the
/// whole length when there is none).
pub proof fn lemma_len_until_is(s: Seq<u8>, sep: u8, k: int)
    requires
        0 <= k <= s.len(),
        forall|j: int| 0 <= j < k ==> s[j] != sep,
        k < s.len() ==> s[k] == sep,
    ensures
        len_until(s, sep) == k,
    decreases k,
{
    if k == 0 {
    } else {
        lemma_len_until_is(s.drop_first(), sep, k - 1);
    }
}

/// The lines of `s`: maximal runs separated by single `\n` bytes.  A
/// trailing newline does not create an extra empty line.
pub open spec fn spec_lines(s: Seq<u8>) -> Seq<Seq<u8>>
    decreases s.len(),
    via spec_lines_dec
{
    if s.len() == 0 {
        Seq::empty()
    } else {
        let n = len_until(s, 10);
        if n == s.len() {
            seq![s]
        } else {
            seq![s.take(n as int)] + spec_lines(s.subrange(n as int + 1, s.len() as int))
        }
    }
}

#[via_fn]
proof fn spec_lines_dec(s: Seq<u8>) {
    lemma_len_until_le(s, 10);
}

/// How many leading separator bytes (spaces/tabs) `s` carries.
pub open spec fn leading_ws(s: Seq<u8>) -> nat
    decreases s.len(),
{
    if s.len() == 0 || !is_ws(s[0]) {
        0
    } else {
        1 + leading_ws(s.drop_first())
    }
}

pub proof fn lemma_leading_ws_le(s: Seq<u8>)
    ensures
        leading_ws(s) <= s.len(),
    decreases s.len(),
{
    if s.len() > 0 && is_ws(s[0]) {
        lemma_leading_ws_le(s.drop_first());
    }
}

pub proof fn lemma_leading_ws_is(s: Seq<u8>, k: int)
    requires
        0 <= k <= s.len(),
        forall|j: int| 0 <= j < k ==> is_ws(#[trigger] s[j]),
        k < s.len() ==> !is_ws(s[k]),
    ensures
        leading_ws(s) == k,
    decreases k,
{
    if k > 0 {
        lemma_leading_ws_is(s.drop_first(), k - 1);
    }
}

/// How many leading bytes of `s` belong to a field (are not separators).
pub open spec fn leading_field(s: Seq<u8>) -> nat
    decreases s.len(),
{
    if s.len() == 0 || is_ws(s[0]) {
        0
    } else {
        1 + leading_field(s.drop_first())
    }
}

pub proof fn lemma_leading_field_le(s: Seq<u8>)
    ensures
        leading_field(s) <= s.len(),
    decreases s.len(),
{
    if s.len() > 0 && !is_ws(s[0]) {
        lemma_leading_field_le(s.drop_first());
    }
}

pub proof fn lemma_leading_field_is(s: Seq<u8>, k: int)
    requires
        0 <= k <= s.len(),
        forall|j: int| 0 <= j < k ==> !is_ws(#[trigger] s[j]),
        k < s.len() ==> is_ws(s[k]),
    ensures
        leading_field(s) == k,
    decreases k,
{
    if k > 0 {
        lemma_leading_field_is(s.drop_first(), k - 1);
    }
}

/// The whitespace-separated fields of `s`, in order, without separators.
pub open spec fn spec_fields(s: Seq<u8>) -> Seq<Seq<u8>>
    decreases s.len(),
    via spec_fields_dec
{
    if s.len() == 0 {
        Seq::empty()
    } else if is_ws(s[0]) {
        spec_fields(s.subrange(leading_ws(s) as int, s.len() as int))
    } else {
        seq![s.take(leading_field(s) as int)] + spec_fields(
            s.subrange(leading_field(s) as int, s.len() as int),
        )
    }
}

#[via_fn]
proof fn spec_fields_dec(s: Seq<u8>) {
    if s.len() > 0 {
        if is_ws(s[0]) {
            lemma_leading_ws_le(s);
        } else {
            lemma_leading_field_le(s);
        }
    }
}

/// Splits `s` into its `\n`-separated lines, exactly as [`spec_lines`]
/// describes them.
pub fn split_lines(s: &[u8]) -> (r: Vec<Vec<u8>>)
    ensures
        r.deep_view() == spec_lines(s@),
{
    let mut r: Vec<Vec<u8>> = Vec::new();
    let mut start: usize = 0;
    let mut i: usize = 0;
    let n: usize = s.len();
    proof {
        assert(s@.subrange(0, n as int) =~= s@);
    }
    while i < n
        invariant
            0 <= start <= i <= n == s@.len(),
            forall|j: int| start <= j < i ==> s@[j] != 10,
            spec_lines(s@) == r.deep_view() + spec_lines(s@.subrange(start as int, n as int)),
        decreases n - i,
    {
        if s[i] == 10 {
            let line = slice_to_vec_range(s, start, i);
            let ghost prev = r.deep_view();
            proof {
                let rest = s@.subrange(start as int, n as int);
                lemma_len_until_is(rest, 10, i - start);
                assert(rest.take(i - start) =~= s@.subrange(start as int, i as int));
                assert(rest.subrange(i - start + 1, rest.len() as int) =~= s@.subrange(
                    i + 1,
                    n as int,
                ));
                assert(spec_lines(rest) =~= seq![line@] + spec_lines(
                    s@.subrange(i + 1, n as int),
                ));
            }
            r.push(line);
            proof {
                assert(r.deep_view() =~~= prev.push(line@));
                assert((prev + (seq![line@] + spec_lines(s@.subrange(i + 1, n as int)))) =~= (
                prev.push(line@) + spec_lines(s@.subrange(i + 1, n as int))));
            }
            start = i + 1;
        }
        i = i + 1;
    }
    if start < n {
        let line = slice_to_vec_range(s, start, n);
        let ghost prev = r.deep_view();
        proof {
            let rest = s@.subrange(start as int, n as int);
            lemma_len_until_is(rest, 10, n - start);
            assert(rest =~= line@);
            assert(spec_lines(rest) =~= seq![line@]);
        }
        r.push(line);
        proof {
            assert(r.deep_view() =~~= prev.push(line@));
            assert((prev + seq![line@]) =~= prev.push(line@));
        }
    } else {
        proof {
            assert(s@.subrange(start as int, n as int) =~= Seq::<u8>::empty());
            assert(r.deep_view() + spec_lines(Seq::<u8>::empty()) =~= r.deep_view());
        }
    }
    r
}

/// Copies `s[from..to]` into a fresh vector.
pub fn slice_to_vec_range(s: &[u8], from: usize, to: usize) -> (r: Vec<u8>)
    requires
        0 <= from <= to <= s@.len(),
    ensures
        r@ == s@.subrange(from as int, to as int),
{
    let mut r: Vec<u8> = Vec::new();
    let mut i: usize = from;
    while i < to
        invariant
            from <= i <= to <= s@.len(),
            r@ == s@.subrange(from as int, i as int),
        decreases to - i,
    {
        r.push(s[i]);
        proof {
            assert(s@.subrange(from as int, i + 1) =~= s@.subrange(from as int, i as int).push(
                s@[i as int],
            ));
        }
        i = i + 1;
    }
    r
}

/// Dropping one leading separator byte leaves the fields unchanged.
pub proof fn lemma_fields_skip_ws(s: Seq<u8>)
    requires
        s.len() > 0,
        is_ws(s[0]),
    ensures
        spec_fields(s) == spec_fields(s.drop_first()),
{
    let w = leading_ws(s) as int;
    let n = s.len() as int;
    lemma_leading_ws_le(s);
    assert(w == 1 + leading_ws(s.drop_first()));
    if w == 1 {
        assert(s.subrange(1, n) =~= s.drop_first());
    } else {
        assert(leading_ws(s.drop_first()) >= 1);
        assert(is_ws(s.drop_first()[0]));
        assert(s.drop_first().subrange(w - 1, n - 1) =~= s.subrange(w, n));
    }
}

/// Splits `s` into its whitespace-separated fields, exactly as
/// [`spec_fields`] describes them.
pub fn split_fields(s: &[u8]) -> (r: Vec<Vec<u8>>)
    ensures
        r.deep_view() == spec_fields(s@),
{
    let mut r: Vec<Vec<u8>> = Vec::new();
    let mut i: usize = 0;
    let n: usize = s.len();
    proof {
        assert(s@.subrange(0, n as int) =~= s@);
    }
    while i < n
        invariant
            0 <= i <= n == s@.len(),
            spec_fields(s@) == r.deep_view() + spec_fields(s@.subrange(i as int, n as int)),
        decreases n - i,
    {
        if is_ws_exec(s[i]) {
            proof {
                let rest = s@.subrange(i as int, n as int);
                lemma_fields_skip_ws(rest);
                assert(rest.drop_first() =~= s@.subrange(i + 1, n as int));
            }
            i = i + 1;
        } else {
            let start: usize = i;
            while i < n && !is_ws_exec(s[i])
                invariant
                    0 <= start <= i <= n == s@.len(),
                    forall|j: int| start <= j < i ==> !is_ws(#[trigger] s@[j]),
                decreases n - i,
            {
                i = i + 1;
            }
            let field = slice_to_vec_range(s, start, i);
            let ghost prev = r.deep_view();
            proof {
                let rest = s@.subrange(start as int, n as int);
                lemma_leading_field_is(rest, i - start);
                assert(rest.take(i - start) =~= field@);
                assert(rest.subrange(i - start, rest.len() as int) =~= s@.subrange(
                    i as int,
                    n as int,
                ));
                assert(spec_fields(rest) =~= seq![field@] + spec_fields(
                    s@.subrange(i as int, n as int),
                ));
            }
            r.push(field);
            proof {
                assert(r.deep_view() =~~= prev.push(field@));
                assert((prev + (seq![field@] + spec_fields(s@.subrange(i as int, n as int)))) =~= (
                prev.push(field@) + spec_fields(s@.subrange(i as int, n as int))));
            }
        }
    }
    proof {
        assert(s@.subrange(n as int, n as int) =~= Seq::<u8>::empty());
        assert(r.deep_view() + spec_fields(Seq::<u8>::empty()) =~= r.deep_view());
    }
    r
}

/// Relies on String::from_utf8: it accepts exactly the valid UTF-8 byte
/// sequences, and decodes them to the character sequence the bytes
/// encode, as vstd's UTF-8 specification states it.
#[verifier::external_body]
pub fn utf8_to_string(bytes: Vec<u8>) -> (r: Option<String>)
    ensures
        match r {
            Some(s) => vstd::utf8::valid_utf8(bytes@) && s@ == vstd::utf8::decode_utf8(bytes@),
            None => !vstd::utf8::valid_utf8(bytes@),
        },
{
    match String::from_utf8(bytes) {
        Ok(s) => Some(s),
        Err(_) => None,
    }
}

/// Byte-slice equality, decided position by position.
pub fn bytes_eq(a: &[u8], b: &[u8]) -> (r: bool)
    ensures
        r == (a@ == b@),
{
    if a.len() != b.len() {
        return false;
    }
    let n = a.len();
    let mut i: usize = 0;
    while i < n
        invariant
            0 <= i <= n == a@.len() == b@.len(),
            forall|j: int| 0 <= j < i ==> a@[j] == b@[j],
        decreases n - i,
    {
        if a[i] != b[i] {
            return false;
        }
        i = i + 1;
    }
    proof {
        assert(a@ =~= b@);
    }
    true
}

/// String equality, decided on the UTF-8 bytes; two strings are equal
/// exactly when their byte encodings are.
pub fn str_eq(a: &str, b: &str) -> (r: bool)
    ensures
        r == (a@ == b@),
{
    let r = bytes_eq(a.as_bytes(), b.as_bytes());
    proof {
        vstd::utf8::encode_utf8_decode_utf8(a@);
        vstd::utf8::encode_utf8_decode_utf8(b@);
    }
    r
}

/// Executable twin of [`is_ws`].
pub fn is_ws_exec(b: u8) -> (r: bool)
    ensures
        r == is_ws(b),
{
    b == 32 || b == 9
}

/// Parses a non-empty decimal digit string into its value.  Returns
/// `None` when the string is empty, holds a non-digit, or its value does
/// not fit in a `u64`.
pub fn parse_u64(s: &[u8]) -> (r: Option<u64>)
    ensures
        match r {
            Some(v) => s@.len() > 0 && all_digits(s@) && v == digits_val(s@),
            None => s@.len() == 0 || !all_digits(s@) || digits_val(s@) > u64::MAX,
        },
{
    if s.len() == 0 {
        return None;
    }
    let mut v: u64 = 0;
    let mut i: usize = 0;
    let n: usize = s.len();
    while i < n
        invariant
            0 <= i <= n == s@.len(),
            n > 0,
            all_digits(s@.take(i as int)),
            v == digits_val(s@.take(i as int)),
        decreases n - i,
    {
        let b = s[i];
        if b < 48 || b > 57 {
            return None;
        }
        let d: u64 = (b - 48) as u64;
        let hi = match v.checked_mul(10) {
            Some(hi) => hi,
            None => {
                proof {
                    assert(s@.take(i + 1).drop_last() =~= s@.take(i as int));
                    assert(digits_val(s@.take(i + 1)) > u64::MAX);
                    lemma_digits_val_prefix_le(s@, i + 1);
                }
                return None;
            },
        };
        let sum = match hi.checked_add(d) {
            Some(sum) => sum,
            None => {
                proof {
                    assert(s@.take(i + 1).drop_last() =~= s@.take(i as int));
                    assert(digits_val(s@.take(i + 1)) > u64::MAX);
                    lemma_digits_val_prefix_le(s@, i + 1);
                }
                return None;
            },
        };
        proof {
            assert(s@.take(i + 1).drop_last() =~= s@.take(i as int));
        }
        v = sum;
        i = i + 1;
    }
    proof {
        assert(s@.take(n as int) =~= s@);
    }
    Some(v)
}

} // verus!
