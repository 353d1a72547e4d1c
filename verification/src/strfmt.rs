//! Verified string building: decimal rendering of counters, column
//! padding, and JSON string escaping.

use vstd::prelude::*;
use vstd::string::StrSliceExecFns;
use vstd::string::StringExecFns;

verus! {

/// Relies on `alloc::string::String::push`: appends exactly one character.
#[verifier::external_body]
pub(crate) fn string_push_char(s: &mut String, c: char)
    ensures
        final(s)@ == old(s)@ + seq![c],
{
    s.push(c);
}

/// The digit character for a value below ten.
pub open spec fn dec_digit_char(d: nat) -> char {
    if d == 0 {
        '0'
    } else if d == 1 {
        '1'
    } else if d == 2 {
        '2'
    } else if d == 3 {
        '3'
    } else if d == 4 {
        '4'
    } else if d == 5 {
        '5'
    } else if d == 6 {
        '6'
    } else if d == 7 {
        '7'
    } else if d == 8 {
        '8'
    } else {
        '9'
    }
}

/// The usual decimal rendering of `n`, without sign or leading zeros
/// (except for `n == 0` itself).
pub open spec fn dec_repr(n: nat) -> Seq<char>
    decreases n,
{
    if n < 10 {
        seq![dec_digit_char(n)]
    } else {
        dec_repr(n / 10) + seq![dec_digit_char(n % 10)]
    }
}

fn dec_digit(d: u64) -> (r: char)
    requires
        d < 10,
    ensures
        r == dec_digit_char(d as nat),
{
    if d == 0 {
        '0'
    } else if d == 1 {
        '1'
    } else if d == 2 {
        '2'
    } else if d == 3 {
        '3'
    } else if d == 4 {
        '4'
    } else if d == 5 {
        '5'
    } else if d == 6 {
        '6'
    } else if d == 7 {
        '7'
    } else if d == 8 {
        '8'
    } else {
        '9'
    }
}

/// Renders `n` in decimal.
pub fn u128_to_dec(n: u128) -> (r: String)
    ensures
        r@ == dec_repr(n as nat),
    decreases n,
{
    if n < 10 {
        let mut s = String::new();
        string_push_char(&mut s, dec_digit(n as u64));
        proof {
            assert(s@ =~= dec_repr(n as nat));
        }
        s
    } else {
        let mut s = u128_to_dec(n / 10);
        string_push_char(&mut s, dec_digit((n % 10) as u64));
        proof {
            assert(s@ =~= dec_repr(n as nat));
        }
        s
    }
}

/// Renders `n` in decimal.
pub fn u64_to_dec(n: u64) -> (r: String)
    ensures
        r@ == dec_repr(n as nat),
{
    u128_to_dec(n as u128)
}

/// The first `k` fractional digits of the long division of `rem` by
/// `den`, where `rem` is the remainder so far.
pub open spec fn frac_digits_rec(rem: int, den: int, k: nat) -> Seq<char>
    recommends
        den > 0,
    decreases k,
{
    if k == 0 {
        Seq::empty()
    } else {
        seq![dec_digit_char(((10 * rem) / den) as nat)] + frac_digits_rec(
            (10 * rem) % den,
            den,
            (k - 1) as nat,
        )
    }
}

/// The decimal rendering of the rational `num / den` with exactly `frac`
/// fractional digits, by long division (the last digit is truncated, not
/// rounded).
pub open spec fn rat_decimal(num: int, den: int, frac: nat) -> Seq<char>
    recommends
        den > 0,
{
    dec_repr((num / den) as nat) + seq!['.'] + frac_digits_rec(num % den, den, frac)
}

/// Renders `num / den` in decimal with `frac` fractional digits.
pub fn rat_decimal_string(num: u128, den: u128, frac: usize) -> (r: String)
    requires
        1 <= den <= u128::MAX / 10,
    ensures
        r@ == rat_decimal(num as int, den as int, frac as nat),
{
    let q = num / den;
    let mut rem = num % den;
    let mut s = u128_to_dec(q);
    string_push_char(&mut s, '.');
    proof {
        assert(s@ =~= dec_repr((num as int / den as int) as nat) + seq!['.']);
    }
    let ghost head = s@;
    let mut i: usize = 0;
    while i < frac
        invariant
            i <= frac,
            rem < den,
            1 <= den <= u128::MAX / 10,
            s@ + frac_digits_rec(rem as int, den as int, (frac - i) as nat) == head
                + frac_digits_rec((num % den) as int, den as int, frac as nat),
        decreases frac - i,
    {
        let ghost rem_old = rem as int;
        let ghost before = s@;
        let ghost k = (frac - i) as nat;
        let t = rem * 10;
        let d = t / den;
        proof {
            assert(t as int == 10 * rem_old);
            assert(t < 10 * (den as int));
            assert(d < 10) by (nonlinear_arith)
                requires
                    d == t as int / den as int,
                    (t as int) < 10 * (den as int),
                    den >= 1,
            ;
        }
        string_push_char(&mut s, dec_digit(d as u64));
        rem = t % den;
        proof {
            assert(frac_digits_rec(rem_old, den as int, k) == seq![
                dec_digit_char(((10 * rem_old) / (den as int)) as nat)] + frac_digits_rec(
                (10 * rem_old) % (den as int),
                den as int,
                (k - 1) as nat,
            ));
            assert(d as int == (10 * rem_old) / (den as int));
            assert(rem as int == (10 * rem_old) % (den as int));
            assert(s@ + frac_digits_rec(rem as int, den as int, (k - 1) as nat) =~= before
                + frac_digits_rec(rem_old, den as int, k));
        }
        i = i + 1;
    }
    proof {
        assert(frac_digits_rec(rem as int, den as int, 0) =~= Seq::<char>::empty());
        assert(s@ + Seq::<char>::empty() =~= s@);
        assert(s@ =~= rat_decimal(num as int, den as int, frac as nat));
    }
    s
}

/// `n` spaces.
pub open spec fn spaces(n: nat) -> Seq<char>
    decreases n,
{
    if n == 0 {
        Seq::empty()
    } else {
        spaces((n - 1) as nat) + seq![' ']
    }
}

/// `s` padded with spaces on the left up to `width` characters; a longer
/// `s` stays as it is.
pub open spec fn pad_left_spec(s: Seq<char>, width: nat) -> Seq<char> {
    if s.len() >= width {
        s
    } else {
        spaces((width - s.len()) as nat) + s
    }
}

/// `s` padded with spaces on the right up to `width` characters; a longer
/// `s` stays as it is.
pub open spec fn pad_right_spec(s: Seq<char>, width: nat) -> Seq<char> {
    if s.len() >= width {
        s
    } else {
        s + spaces((width - s.len()) as nat)
    }
}

fn push_spaces(out: &mut String, n: usize)
    ensures
        final(out)@ == old(out)@ + spaces(n as nat),
{
    let mut i: usize = 0;
    proof {
        assert(old(out)@ + spaces(0) =~= old(out)@);
    }
    while i < n
        invariant
            i <= n,
            out@ == old(out)@ + spaces(i as nat),
        decreases n - i,
    {
        string_push_char(out, ' ');
        proof {
            assert(old(out)@ + spaces(i as nat) + seq![' '] =~= old(out)@ + spaces(
                (i + 1) as nat,
            ));
        }
        i = i + 1;
    }
}

/// Pads `s` with spaces on the left to `width` characters.
pub fn pad_left(s: &str, width: usize) -> (r: String)
    ensures
        r@ == pad_left_spec(s@, width as nat),
{
    let len = s.unicode_len();
    let mut out = String::new();
    if len < width {
        push_spaces(&mut out, width - len);
    }
    out.append(s);
    proof {
        assert(out@ =~= pad_left_spec(s@, width as nat));
    }
    out
}

/// Pads `s` with spaces on the right to `width` characters.
pub fn pad_right(s: &str, width: usize) -> (r: String)
    ensures
        r@ == pad_right_spec(s@, width as nat),
{
    let len = s.unicode_len();
    let mut out = String::new();
    out.append(s);
    if len < width {
        push_spaces(&mut out, width - len);
    }
    proof {
        assert(out@ =~= pad_right_spec(s@, width as nat));
    }
    out
}

/// The hexadecimal digit character for a value below sixteen.
pub open spec fn hex_digit_char(d: nat) -> char {
    if d < 10 {
        dec_digit_char(d)
    } else if d == 10 {
        'a'
    } else if d == 11 {
        'b'
    } else if d == 12 {
        'c'
    } else if d == 13 {
        'd'
    } else if d == 14 {
        'e'
    } else {
        'f'
    }
}

fn hex_digit(d: u32) -> (r: char)
    requires
        d < 16,
    ensures
        r == hex_digit_char(d as nat),
{
    if d < 10 {
        dec_digit(d as u64)
    } else if d == 10 {
        'a'
    } else if d == 11 {
        'b'
    } else if d == 12 {
        'c'
    } else if d == 13 {
        'd'
    } else if d == 14 {
        'e'
    } else {
        'f'
    }
}

/// How one character appears inside a JSON string literal: quote and
/// backslash are escaped, control characters take the `\u00XX` form, and
/// everything else stands for itself.
pub open spec fn json_escape_char(c: char) -> Seq<char> {
    if c == '"' {
        seq!['\\', '"']
    } else if c == '\\' {
        seq!['\\', '\\']
    } else if (c as u32) < 0x20 {
        seq!['\\', 'u', '0', '0', hex_digit_char((c as u32 / 16) as nat), hex_digit_char((
            c as u32 % 16
        ) as nat)]
    } else {
        seq![c]
    }
}

/// The body of the JSON string literal for `s`.
pub open spec fn json_escape(s: Seq<char>) -> Seq<char>
    decreases s.len(),
{
    if s.len() == 0 {
        Seq::empty()
    } else {
        json_escape_char(s[0]) + json_escape(s.drop_first())
    }
}

proof fn lemma_json_escape_snoc(s: Seq<char>, c: char)
    ensures
        json_escape(s + seq![c]) == json_escape(s) + json_escape_char(c),
    decreases s.len(),
{
    let e = s + seq![c];
    if s.len() == 0 {
        assert(e.len() == 1);
        assert(e[0] == c);
        assert(e.drop_first() =~= Seq::<char>::empty());
        assert(json_escape(e) == json_escape_char(c) + json_escape(Seq::<char>::empty()));
        assert(json_escape_char(c) + Seq::<char>::empty() =~= json_escape_char(c));
        assert(Seq::<char>::empty() + json_escape_char(c) =~= json_escape_char(c));
        assert(json_escape(e) =~= json_escape(s) + json_escape_char(c));
    } else {
        assert(e[0] == s[0]);
        assert(e.drop_first() =~= s.drop_first() + seq![c]);
        lemma_json_escape_snoc(s.drop_first(), c);
        assert(json_escape(e) =~= json_escape(s) + json_escape_char(c));
    }
}

fn push_escaped_char(out: &mut String, c: char)
    ensures
        final(out)@ == old(out)@ + json_escape_char(c),
{
    if c == '"' {
        out.append("\\\"");
        proof {
            reveal_strlit("\\\"");
            assert(final(out)@ =~= old(out)@ + json_escape_char(c));
        }
    } else if c == '\\' {
        out.append("\\\\");
        proof {
            reveal_strlit("\\\\");
            assert(final(out)@ =~= old(out)@ + json_escape_char(c));
        }
    } else if (c as u32) < 0x20 {
        out.append("\\u00");
        string_push_char(out, hex_digit((c as u32) / 16));
        string_push_char(out, hex_digit((c as u32) % 16));
        proof {
            reveal_strlit("\\u00");
            assert(final(out)@ =~= old(out)@ + json_escape_char(c));
        }
    } else {
        string_push_char(out, c);
        proof {
            assert(final(out)@ =~= old(out)@ + json_escape_char(c));
        }
    }
}

/// Appends the body of the JSON string literal for `s` to `out`.
pub fn push_json_escaped(out: &mut String, s: &str)
    ensures
        final(out)@ == old(out)@ + json_escape(s@),
{
    let len = s.unicode_len();
    let mut i: usize = 0;
    proof {
        assert(s@.take(0) =~= Seq::<char>::empty());
        assert(old(out)@ + json_escape(s@.take(0)) =~= old(out)@);
    }
    while i < len
        invariant
            i <= len,
            len == s@.len(),
            out@ == old(out)@ + json_escape(s@.take(i as int)),
        decreases len - i,
    {
        let c = s.get_char(i);
        push_escaped_char(out, c);
        proof {
            assert(s@.take(i as int) + seq![c] =~= s@.take(i as int + 1));
            lemma_json_escape_snoc(s@.take(i as int), c);
        }
        i = i + 1;
    }
    proof {
        assert(s@.take(len as int) =~= s@);
    }
}

} // verus!
