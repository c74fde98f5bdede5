//! Verified string helpers shared by the schema adapters.
//!
//! Everything here works over the `Seq<char>` view of `&str` / `String`.
//! The only operations taken on trust are [`push_char`] and the Unicode
//! case mappings, whose results are named by the uninterpreted spec
//! functions [`lower_of`] and [`upper_of`].

use vstd::prelude::*;

verus! {

/// Compares two string slices character by character.
pub fn str_eq(a: &str, b: &str) -> (r: bool)
    ensures
        r == (a@ == b@),
{
    let alen = a.unicode_len();
    let blen = b.unicode_len();
    if alen != blen {
        return false;
    }
    let mut i: usize = 0;
    while i < alen
        invariant
            a@.len() == alen,
            b@.len() == alen,
            i <= alen,
            forall|j: int| 0 <= j < i ==> a@[j] == b@[j],
        decreases alen - i,
    {
        if a.get_char(i) != b.get_char(i) {
            return false;
        }
        i += 1;
    }
    proof {
        assert(a@ =~= b@);
    }
    true
}

/// True when `pat` occurs in `s` starting at index `i`.
pub open spec fn starts_with_at(s: Seq<char>, pat: Seq<char>, i: int) -> bool {
    &&& 0 <= i
    &&& i + pat.len() <= s.len()
    &&& s.subrange(i, i + pat.len()) == pat
}

/// The result of replacing every non-overlapping occurrence of `pat` in `s`
/// with `to`, scanning left to right, as `str::replace` does for a
/// non-empty pattern. An empty pattern leaves the string unchanged.
pub open spec fn spec_replace(s: Seq<char>, pat: Seq<char>, to: Seq<char>) -> Seq<char>
    decreases s.len(),
{
    if pat.len() == 0 || s.len() < pat.len() {
        s
    } else if s.subrange(0, pat.len() as int) == pat {
        to + spec_replace(s.skip(pat.len() as int), pat, to)
    } else {
        seq![s[0]] + spec_replace(s.skip(1), pat, to)
    }
}

/// True when `pat` occurs in `s` at character index `i`.
fn match_at(s: &str, pat: &str, i: usize) -> (r: bool)
    requires
        i + pat@.len() <= s@.len(),
    ensures
        r == starts_with_at(s@, pat@, i as int),
{
    let n = s.unicode_len();
    let m = pat.unicode_len();
    let mut j: usize = 0;
    while j < m
        invariant
            n == s@.len(),
            m == pat@.len(),
            i + m <= n,
            j <= m,
            forall|k: int| 0 <= k < j ==> s@[i + k] == pat@[k],
        decreases m - j,
    {
        if s.get_char(i + j) != pat.get_char(j) {
            proof {
                assert(s@.subrange(i as int, i + m as int)[j as int] == s@[i + j]);
            }
            return false;
        }
        j += 1;
    }
    proof {
        assert(s@.subrange(i as int, i + m as int) =~= pat@);
    }
    true
}

/// Replaces every occurrence of `pat` in `s` with `to`.
///
/// The empty-pattern case is only supported with an empty replacement,
/// where `str::replace` returns the input unchanged.
pub fn replace_str(s: &str, pat: &str, to: &str) -> (r: String)
    requires
        pat@.len() > 0 || to@.len() == 0,
    ensures
        r@ == spec_replace(s@, pat@, to@),
{
    let n = s.unicode_len();
    let m = pat.unicode_len();
    if m == 0 {
        return s.to_owned();
    }
    let mut res = String::new();
    let mut i: usize = 0;
    proof {
        assert(s@.skip(0) =~= s@);
        assert(Seq::<char>::empty() + spec_replace(s@, pat@, to@) =~= spec_replace(s@, pat@, to@));
    }
    while i < n
        invariant
            n == s@.len(),
            m == pat@.len(),
            0 < m,
            i <= n,
            spec_replace(s@, pat@, to@) == res@ + spec_replace(s@.skip(i as int), pat@, to@),
        decreases n - i,
    {
        let ghost prev = res@;
        let ghost rest = s@.skip(i as int);
        if m <= n - i && match_at(s, pat, i) {
            res.append(to);
            proof {
                assert(rest.subrange(0, m as int) =~= s@.subrange(i as int, i + m as int));
                assert(rest.skip(m as int) =~= s@.skip(i + m as int));
                assert(spec_replace(rest, pat@, to@) == to@ + spec_replace(
                    s@.skip(i + m as int),
                    pat@,
                    to@,
                ));
                assert(prev + (to@ + spec_replace(s@.skip(i + m as int), pat@, to@)) =~= res@
                    + spec_replace(s@.skip(i + m as int), pat@, to@));
            }
            i += m;
        } else {
            res.append(s.substring_char(i, i + 1));
            proof {
                if rest.len() >= m && rest.subrange(0, m as int) == pat@ {
                    assert(rest.subrange(0, m as int) =~= s@.subrange(i as int, i + m as int));
                    assert(false);
                }
                assert(rest.skip(1) =~= s@.skip(i + 1));
                assert(seq![rest[0]] =~= s@.subrange(i as int, i + 1 as int));
                assert(spec_replace(rest, pat@, to@) == seq![rest[0]] + spec_replace(
                    s@.skip(i + 1),
                    pat@,
                    to@,
                ));
                assert(prev + (s@.subrange(i as int, i + 1 as int) + spec_replace(
                    s@.skip(i + 1),
                    pat@,
                    to@,
                )) =~= res@ + spec_replace(s@.skip(i + 1), pat@, to@));
            }
            i += 1;
        }
    }
    proof {
        assert(s@.skip(n as int) =~= Seq::<char>::empty());
        assert(res@ + spec_replace(s@.skip(n as int), pat@, to@) =~= res@);
    }
    res
}

/// Removes every occurrence of `pat` from `s`.
pub fn remove_all(s: &str, pat: &str) -> (r: String)
    ensures
        r@ == spec_replace(s@, pat@, Seq::<char>::empty()),
{
    proof {
        reveal_strlit("");
        assert(""@ =~= Seq::<char>::empty());
    }
    replace_str(s, pat, "")
}

/// True for the ten ASCII decimal digit characters.
pub open spec fn is_ascii_digit_char(c: char) -> bool {
    48 <= c as u32 <= 57
}

/// `s` with its maximal run of trailing ASCII digits removed.
pub open spec fn strip_trailing_digits(s: Seq<char>) -> Seq<char>
    decreases s.len(),
{
    if s.len() > 0 && is_ascii_digit_char(s.last()) {
        strip_trailing_digits(s.drop_last())
    } else {
        s
    }
}

/// True when the character of `s` at index `i` is an ASCII decimal digit.
pub(crate) fn digit_at(s: &str, i: usize) -> (r: bool)
    requires
        i < s@.len(),
    ensures
        r == is_ascii_digit_char(s@[i as int]),
{
    let u = s.get_char(i) as u32;
    48 <= u && u <= 57
}

/// Removes the maximal run of trailing ASCII digits from `s`.
pub fn strip_digits(s: &str) -> (r: String)
    ensures
        r@ == strip_trailing_digits(s@),
{
    let n = s.unicode_len();
    let mut k = n;
    proof {
        assert(s@.take(n as int) =~= s@);
    }
    while k > 0 && digit_at(s, k - 1)
        invariant
            n == s@.len(),
            k <= n,
            strip_trailing_digits(s@) == strip_trailing_digits(s@.take(k as int)),
        decreases k,
    {
        proof {
            assert(s@.take(k as int).last() == s@[k - 1]);
            assert(s@.take(k as int).drop_last() =~= s@.take(k - 1));
        }
        k -= 1;
    }
    proof {
        if k > 0 {
            assert(s@.take(k as int).last() == s@[k - 1]);
        }
        assert(strip_trailing_digits(s@.take(k as int)) == s@.take(k as int));
    }
    String::from_str(s.substring_char(0, k))
}

/// The numeric value of an ASCII digit character; garbage outside digits.
pub open spec fn dec_digit_val(c: char) -> nat {
    (c as u32 - 48) as nat
}

/// True for the characters `str::parse::<u64>` accepts as digits.
pub open spec fn is_hex_digit_char(c: char) -> bool {
    ||| is_ascii_digit_char(c)
    ||| 97 <= c as u32 <= 102
    ||| 65 <= c as u32 <= 70
}

/// The numeric value of a hexadecimal digit; garbage outside hex digits.
pub open spec fn hex_digit_val(c: char) -> nat {
    if is_ascii_digit_char(c) {
        (c as u32 - 48) as nat
    } else if 97 <= c as u32 <= 102 {
        (c as u32 - 87) as nat
    } else {
        (c as u32 - 55) as nat
    }
}

/// True when every character of `s` is a digit of the given base.
pub open spec fn all_digits(s: Seq<char>, hex: bool) -> bool {
    forall|i: int|
        0 <= i < s.len() ==> (if hex {
            is_hex_digit_char(s[i])
        } else {
            is_ascii_digit_char(s[i])
        })
}

/// The value of a digit string read in the given base.
pub open spec fn digits_val(s: Seq<char>, hex: bool) -> nat
    decreases s.len(),
{
    if s.len() == 0 {
        0
    } else {
        digits_val(s.drop_last(), hex) * (if hex {
            16nat
        } else {
            10nat
        }) + (if hex {
            hex_digit_val(s.last())
        } else {
            dec_digit_val(s.last())
        })
    }
}

/// What parsing an unsigned number returns: after an optional leading
/// `+` sign, the string must be one or more digits of the base, and the
/// value must fit in a `u64`.
pub open spec fn spec_parse_u64(s: Seq<char>, hex: bool) -> Option<u64> {
    let digits = if s.len() > 0 && s[0] == '+' {
        s.skip(1)
    } else {
        s
    };
    if digits.len() == 0 || !all_digits(digits, hex) {
        None
    } else if digits_val(digits, hex) > u64::MAX {
        None
    } else {
        Some(digits_val(digits, hex) as u64)
    }
}

proof fn lemma_digits_val_prefix(s: Seq<char>, k: int, hex: bool)
    requires
        0 <= k <= s.len(),
    ensures
        digits_val(s.take(k), hex) <= digits_val(s, hex),
    decreases s.len() - k,
{
    if k < s.len() {
        lemma_digits_val_prefix(s.drop_last(), k, hex);
        assert(s.drop_last().take(k) =~= s.take(k));
    } else {
        assert(s.take(k) =~= s);
    }
}

/// Parses an unsigned integer in base 10 or 16, as `str::parse::<u64>`
/// and `u64::from_str_radix` do: an optional leading `+`, then digits.
pub fn parse_u64(s: &str, hex: bool) -> (r: Option<u64>)
    ensures
        r == spec_parse_u64(s@, hex),
{
    let n = s.unicode_len();
    let mut start: usize = 0;
    if n > 0 && s.get_char(0) == '+' {
        start = 1;
    }
    let ghost digits = s@.skip(start as int);
    proof {
        if start == 0 {
            assert(s@.skip(0) =~= s@);
        }
    }
    if start == n {
        return None;
    }
    let radix: u64 = if hex {
        16
    } else {
        10
    };
    let mut acc: u64 = 0;
    let mut i = start;
    while i < n
        invariant
            n == s@.len(),
            start <= i <= n,
            start < n,
            start <= 1,
            start == 1 <==> (s@.len() > 0 && s@[0] == '+'),
            digits == s@.skip(start as int),
            start == 0 ==> digits == s@,
            radix == (if hex {
                16u64
            } else {
                10u64
            }),
            all_digits(digits.take(i - start), hex),
            acc == digits_val(digits.take(i - start), hex),
        decreases n - i,
    {
        let c = s.get_char(i);
        let u = c as u32;
        let d: u64;
        if 48 <= u && u <= 57 {
            d = (u - 48) as u64;
        } else if hex && 97 <= u && u <= 102 {
            d = (u - 87) as u64;
        } else if hex && 65 <= u && u <= 70 {
            d = (u - 55) as u64;
        } else {
            proof {
                assert(digits[i - start] == s@[i as int]);
                assert(!all_digits(digits, hex));
            }
            return None;
        }
        let ghost prev = digits.take(i - start);
        proof {
            assert(digits.take(i + 1 - start).drop_last() =~= prev);
            assert(digits.take(i + 1 - start).last() == digits[i - start]);
            assert(digits[i - start] == s@[i as int]);
            assert(digits_val(digits.take(i + 1 - start), hex) == acc * (if hex {
                16nat
            } else {
                10nat
            }) + (if hex {
                hex_digit_val(s@[i as int])
            } else {
                dec_digit_val(s@[i as int])
            }));
            assert((if hex {
                hex_digit_val(s@[i as int])
            } else {
                dec_digit_val(s@[i as int])
            }) == d);
        }
        let step = acc.checked_mul(radix);
        match step {
            Some(shifted) => {
                match shifted.checked_add(d) {
                    Some(next) => {
                        acc = next;
                    },
                    None => {
                        proof {
                            assert(digits_val(digits.take(i + 1 - start), hex) > u64::MAX);
                            lemma_digits_val_prefix(digits, i + 1 - start, hex);
                        }
                        return None;
                    },
                }
            },
            None => {
                proof {
                    assert(digits_val(digits.take(i + 1 - start), hex) > u64::MAX);
                    lemma_digits_val_prefix(digits, i + 1 - start, hex);
                }
                return None;
            },
        }
        i += 1;
    }
    proof {
        assert(digits.take(n - start) =~= digits);
    }
    Some(acc)
}

/// The uppercase form of an ASCII letter; other characters unchanged.
pub open spec fn upper_char(c: char) -> char {
    if 97 <= c as u32 <= 122 {
        ((c as u8) - 32) as char
    } else {
        c
    }
}

/// The lowercase form of an ASCII letter; other characters unchanged.
pub open spec fn lower_char(c: char) -> char {
    if 65 <= c as u32 <= 90 {
        ((c as u8) + 32) as char
    } else {
        c
    }
}

/// The result of pascal-casing `s`: underscores are dropped, the first
/// character of each underscore-separated word is ASCII-uppercased, and
/// the rest of each word is ASCII-lowercased.
pub open spec fn spec_pascal_rec(s: Seq<char>, word_start: bool) -> Seq<char>
    decreases s.len(),
{
    if s.len() == 0 {
        Seq::<char>::empty()
    } else if s[0] == '_' {
        spec_pascal_rec(s.skip(1), true)
    } else if word_start {
        seq![upper_char(s[0])] + spec_pascal_rec(s.skip(1), false)
    } else {
        seq![lower_char(s[0])] + spec_pascal_rec(s.skip(1), false)
    }
}

/// See [`spec_pascal_rec`].
pub open spec fn spec_pascal(s: Seq<char>) -> Seq<char> {
    spec_pascal_rec(s, true)
}

/// Relies on `String::push`: appends exactly one character.
#[verifier::external_body]
fn push_char(s: &mut String, c: char)
    ensures
        final(s)@ == old(s)@ + seq![c],
{
    s.push(c)
}

/// Converts an identifier such as `test_platform` to `TestPlatform`.
pub fn pascal_case(s: &str) -> (r: String)
    ensures
        r@ == spec_pascal(s@),
{
    let n = s.unicode_len();
    let mut res = String::new();
    let mut word_start = true;
    let mut i: usize = 0;
    proof {
        assert(s@.skip(0) =~= s@);
        assert(Seq::<char>::empty() + spec_pascal_rec(s@, true) =~= spec_pascal_rec(s@, true));
    }
    while i < n
        invariant
            n == s@.len(),
            i <= n,
            spec_pascal(s@) == res@ + spec_pascal_rec(s@.skip(i as int), word_start),
        decreases n - i,
    {
        let ghost rest = s@.skip(i as int);
        let c = s.get_char(i);
        proof {
            assert(rest[0] == s@[i as int]);
            assert(rest.skip(1) =~= s@.skip(i + 1));
        }
        if c == '_' {
            word_start = true;
        } else {
            let u = c as u32;
            if word_start {
                if 97 <= u && u <= 122 {
                    push_char(&mut res, (((c as u8)) - 32) as char);
                } else {
                    push_char(&mut res, c);
                }
            } else {
                if 65 <= u && u <= 90 {
                    push_char(&mut res, (((c as u8)) + 32) as char);
                } else {
                    push_char(&mut res, c);
                }
            }
            word_start = false;
        }
        i += 1;
    }
    proof {
        assert(s@.skip(n as int) =~= Seq::<char>::empty());
    }
    res
}

/// The decimal rendering of `n`, as `u32::to_string` produces it.
pub open spec fn dec_str(n: nat) -> Seq<char>
    decreases n,
{
    if n < 10 {
        seq![((48 + n) as u8) as char]
    } else {
        dec_str(n / 10) + seq![((48 + n % 10) as u8) as char]
    }
}

/// Renders `n` in decimal.
pub fn u32_to_dec(n: u32) -> (r: String)
    ensures
        r@ == dec_str(n as nat),
    decreases n,
{
    if n < 10 {
        let mut s = String::new();
        push_char(&mut s, ((48 + n) as u8) as char);
        proof {
            assert(s@ =~= dec_str(n as nat));
        }
        s
    } else {
        let mut s = u32_to_dec(n / 10);
        push_char(&mut s, ((48 + n % 10) as u8) as char);
        s
    }
}

/// The lowercase hexadecimal digit for a value below 16.
pub open spec fn hex_digit_char_of(d: nat) -> char {
    if d < 10 {
        ((48 + d) as u8) as char
    } else {
        ((87 + d) as u8) as char
    }
}

/// The lowercase hexadecimal rendering of `n`, without a prefix.
pub open spec fn hex_str(n: nat) -> Seq<char>
    decreases n,
{
    if n < 16 {
        seq![hex_digit_char_of(n)]
    } else {
        hex_str(n / 16) + seq![hex_digit_char_of(n % 16)]
    }
}

fn u64_hex_digits(n: u64) -> (r: String)
    ensures
        r@ == hex_str(n as nat),
    decreases n,
{
    let d = n % 16;
    let c: char = if d < 10 {
        ((48 + d) as u8) as char
    } else {
        ((87 + d) as u8) as char
    };
    if n < 16 {
        let mut s = String::new();
        push_char(&mut s, c);
        proof {
            assert(s@ =~= hex_str(n as nat));
        }
        s
    } else {
        let mut s = u64_hex_digits(n / 16);
        push_char(&mut s, c);
        s
    }
}

/// Renders `n` as `format!("{:#x}", n)` does: `0x` then lowercase
/// hexadecimal digits.
pub fn u64_to_hex(n: u64) -> (r: String)
    ensures
        r@ == "0x"@ + hex_str(n as nat),
{
    let prefix: String = String::from_str("0x");
    prefix.concat(u64_hex_digits(n).as_str())
}

/// What `str::to_lowercase` returns: a function of the characters alone.
pub uninterp spec fn lower_of(s: Seq<char>) -> Seq<char>;

/// What `str::to_uppercase` returns: a function of the characters alone.
pub uninterp spec fn upper_of(s: Seq<char>) -> Seq<char>;

/// Relies on `str::to_lowercase`: the result depends on the characters
/// alone, and an empty string stays empty.
#[verifier::external_body]
pub fn to_lower(s: &str) -> (r: String)
    ensures
        r@ == lower_of(s@),
        s@.len() == 0 ==> r@.len() == 0,
{
    s.to_lowercase()
}

/// Relies on `str::to_uppercase`: the result depends on the characters
/// alone, and an empty string stays empty.
#[verifier::external_body]
pub fn to_upper(s: &str) -> (r: String)
    ensures
        r@ == upper_of(s@),
        s@.len() == 0 ==> r@.len() == 0,
{
    s.to_uppercase()
}

} // verus!
