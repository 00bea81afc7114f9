//! Character-level primitives of the JSON wire format the envelopes travel
//! in: string escaping, decimal numbers, fixed literal fragments, and their
//! parsers.
//!
//! Every parser here is strict: it accepts exactly the text the matching
//! printer produces. Each primitive comes with two lemmas, one saying that
//! the parser inverts the printer, one saying that a successful parse pins
//! the consumed text down to the printed form.

use vstd::prelude::*;
use vstd::string::StrSliceExecFns;

verus! {

// ---------------------------------------------------------------------------
// String escaping
// ---------------------------------------------------------------------------

/// The wire form of one character inside a JSON string.
pub open spec fn esc_char(c: char) -> Seq<char> {
    if c == '"' {
        seq!['\\', '"']
    } else if c == '\\' {
        seq!['\\', '\\']
    } else if c == '\n' {
        seq!['\\', 'n']
    } else if c == '\r' {
        seq!['\\', 'r']
    } else if c == '\t' {
        seq!['\\', 't']
    } else {
        seq![c]
    }
}

/// The wire form of a string body (between the quotes).
pub open spec fn esc(s: Seq<char>) -> Seq<char>
    decreases s.len(),
{
    if s.len() == 0 {
        Seq::empty()
    } else {
        esc_char(s[0]) + esc(s.skip(1))
    }
}

/// The character an escape code stands for, if it is one of the accepted
/// codes.
pub open spec fn unesc_code(c: char) -> Option<char> {
    if c == '"' {
        Some('"')
    } else if c == '\\' {
        Some('\\')
    } else if c == 'n' {
        Some('\n')
    } else if c == 'r' {
        Some('\r')
    } else if c == 't' {
        Some('\t')
    } else {
        None
    }
}

/// Parse a string body up to and including the closing quote, returning the
/// unescaped value and the rest of the input. Raw `"`-terminators, escape
/// sequences, and plain characters are the only accepted forms; the three
/// control characters that the printer escapes are rejected in raw form, so
/// that exactly the printed texts are accepted.
pub open spec fn sp_str(s: Seq<char>) -> Option<(Seq<char>, Seq<char>)>
    decreases s.len(),
{
    if s.len() == 0 {
        None
    } else if s[0] == '"' {
        Some((Seq::empty(), s.skip(1)))
    } else if s[0] == '\\' {
        if s.len() < 2 {
            None
        } else {
            match unesc_code(s[1]) {
                None => None,
                Some(ch) => match sp_str(s.skip(2)) {
                    None => None,
                    Some((v, r)) => Some((seq![ch] + v, r)),
                },
            }
        }
    } else if s[0] == '\n' || s[0] == '\r' || s[0] == '\t' {
        None
    } else {
        match sp_str(s.skip(1)) {
            None => None,
            Some((v, r)) => Some((seq![s[0]] + v, r)),
        }
    }
}

/// The string parser inverts the escaper: after the escaped body and the
/// closing quote, parsing returns the original value and the leftover input.
pub proof fn lemma_sp_str_complete(v: Seq<char>, rest: Seq<char>)
    ensures
        sp_str(esc(v) + seq!['"'] + rest) == Some((v, rest)),
    decreases v.len(),
{
    let s = esc(v) + seq!['"'] + rest;
    if v.len() == 0 {
        assert(esc(v) == Seq::<char>::empty());
        assert(s =~= seq!['"'] + rest);
        assert(s[0] == '"');
        assert(s.skip(1) =~= rest);
    } else {
        let c = v[0];
        let tail = v.skip(1);
        assert(esc(v) == esc_char(c) + esc(tail));
        lemma_sp_str_complete(tail, rest);
        if c == '"' || c == '\\' || c == '\n' || c == '\r' || c == '\t' {
            let code = esc_char(c)[1];
            assert(s[0] == '\\');
            assert(s[1] == code);
            assert(unesc_code(code) == Some(c));
            assert(s.skip(2) =~= esc(tail) + seq!['"'] + rest);
            assert(seq![c] + tail =~= v);
        } else {
            assert(esc_char(c) == seq![c]);
            assert(s[0] == c);
            assert(s.skip(1) =~= esc(tail) + seq!['"'] + rest);
            assert(seq![c] + tail =~= v);
        }
    }
}

/// A successful string parse pins the consumed input down: it was exactly
/// the escaped value followed by the closing quote.
pub proof fn lemma_sp_str_sound(s: Seq<char>)
    ensures
        sp_str(s) matches Some((v, r)) ==> s == esc(v) + seq!['"'] + r,
    decreases s.len(),
{
    if sp_str(s) is Some {
        let (v, r) = sp_str(s)->Some_0;
        if s[0] == '"' {
            assert(v == Seq::<char>::empty());
            assert(esc(v) == Seq::<char>::empty());
            assert(s =~= esc(v) + seq!['"'] + s.skip(1));
        } else if s[0] == '\\' {
            let ch = unesc_code(s[1])->Some_0;
            let (v2, r2) = sp_str(s.skip(2))->Some_0;
            lemma_sp_str_sound(s.skip(2));
            assert(esc_char(ch) =~= seq![s[0], s[1]]);
            assert(v == seq![ch] + v2);
            assert(v.skip(1) =~= v2);
            assert(v[0] == ch);
            assert(esc(v) == esc_char(ch) + esc(v2));
            assert(s =~= seq![s[0], s[1]] + s.skip(2));
            assert(s =~= esc(v) + seq!['"'] + r);
        } else {
            let c = s[0];
            let (v2, r2) = sp_str(s.skip(1))->Some_0;
            lemma_sp_str_sound(s.skip(1));
            assert(esc_char(c) == seq![c]);
            assert(v == seq![c] + v2);
            assert(v.skip(1) =~= v2);
            assert(v[0] == c);
            assert(esc(v) == esc_char(c) + esc(v2));
            assert(s =~= seq![c] + s.skip(1));
            assert(s =~= esc(v) + seq!['"'] + r);
        }
    }
}

/// A successful string parse consumes at least one character.
pub proof fn lemma_sp_str_shrinks(s: Seq<char>)
    ensures
        sp_str(s) matches Some((v, r)) ==> r.len() < s.len(),
    decreases s.len(),
{
    if sp_str(s) is Some {
        if s[0] == '"' {
        } else if s[0] == '\\' {
            lemma_sp_str_shrinks(s.skip(2));
        } else {
            lemma_sp_str_shrinks(s.skip(1));
        }
    }
}

/// Escaping distributes over appending one character.
pub proof fn lemma_esc_push(t: Seq<char>, c: char)
    ensures
        esc(t + seq![c]) == esc(t) + esc_char(c),
    decreases t.len(),
{
    if t.len() == 0 {
        let u = t + seq![c];
        assert(u.len() == 1);
        assert(u[0] == c);
        assert(u.skip(1) =~= Seq::<char>::empty());
        assert(esc(u.skip(1)) == Seq::<char>::empty());
        assert(esc(u) == esc_char(u[0]) + esc(u.skip(1)));
        assert(esc(u) =~= esc_char(c));
        assert(esc(t) + esc_char(c) =~= esc_char(c));
    } else {
        let u = t + seq![c];
        assert(u[0] == t[0]);
        assert(u.skip(1) =~= t.skip(1) + seq![c]);
        lemma_esc_push(t.skip(1), c);
        assert(esc(u) == esc_char(t[0]) + (esc(t.skip(1)) + esc_char(c)));
        assert(esc_char(t[0]) + (esc(t.skip(1)) + esc_char(c)) =~= esc(t) + esc_char(c));
    }
}

// ---------------------------------------------------------------------------
// Fixed literal fragments
// ---------------------------------------------------------------------------

/// Expect the exact literal `l` at the head of the input; return the rest.
pub open spec fn sp_lit(s: Seq<char>, l: Seq<char>) -> Option<Seq<char>> {
    if l.len() <= s.len() && s.take(l.len() as int) == l {
        Some(s.skip(l.len() as int))
    } else {
        None
    }
}

pub proof fn lemma_sp_lit_complete(l: Seq<char>, rest: Seq<char>)
    ensures
        sp_lit(l + rest, l) == Some(rest),
{
    assert((l + rest).take(l.len() as int) =~= l);
    assert((l + rest).skip(l.len() as int) =~= rest);
}

pub proof fn lemma_sp_lit_sound(s: Seq<char>, l: Seq<char>)
    ensures
        sp_lit(s, l) matches Some(r) ==> s == l + r,
{
    if sp_lit(s, l) is Some {
        assert(s =~= s.take(l.len() as int) + s.skip(l.len() as int));
    }
}

// ---------------------------------------------------------------------------
// Decimal numbers
// ---------------------------------------------------------------------------

pub open spec fn is_digit(c: char) -> bool {
    c == '0' || c == '1' || c == '2' || c == '3' || c == '4' || c == '5' || c == '6' || c == '7'
        || c == '8' || c == '9'
}

/// The numeric value of a digit character.
pub open spec fn digval(c: char) -> nat {
    if c == '1' {
        1
    } else if c == '2' {
        2
    } else if c == '3' {
        3
    } else if c == '4' {
        4
    } else if c == '5' {
        5
    } else if c == '6' {
        6
    } else if c == '7' {
        7
    } else if c == '8' {
        8
    } else if c == '9' {
        9
    } else {
        0
    }
}

/// The digit character of a value below ten.
pub open spec fn dig(n: nat) -> char {
    if n == 1 {
        '1'
    } else if n == 2 {
        '2'
    } else if n == 3 {
        '3'
    } else if n == 4 {
        '4'
    } else if n == 5 {
        '5'
    } else if n == 6 {
        '6'
    } else if n == 7 {
        '7'
    } else if n == 8 {
        '8'
    } else if n == 9 {
        '9'
    } else {
        '0'
    }
}

/// The shortest decimal rendering of `n` (no leading zeros; `0` is `"0"`).
pub open spec fn spec_u64_dec(n: nat) -> Seq<char>
    decreases n,
{
    if n < 10 {
        seq![dig(n)]
    } else {
        spec_u64_dec(n / 10) + seq![dig(n % 10)]
    }
}

/// The value of a digit sequence read in base ten.
pub open spec fn seq_val(d: Seq<char>) -> nat
    decreases d.len(),
{
    if d.len() == 0 {
        0
    } else {
        seq_val(d.drop_last()) * 10 + digval(d.last())
    }
}

/// Split the input into its maximal digit prefix and the rest.
pub open spec fn sp_digits(s: Seq<char>) -> (Seq<char>, Seq<char>)
    decreases s.len(),
{
    if s.len() > 0 && is_digit(s[0]) {
        let (d, r) = sp_digits(s.skip(1));
        (seq![s[0]] + d, r)
    } else {
        (Seq::empty(), s)
    }
}

/// Parse an unsigned decimal number: a nonempty digit run without a leading
/// zero (except `0` itself), valued in base ten.
pub open spec fn sp_u64(s: Seq<char>) -> Option<(nat, Seq<char>)> {
    let (d, r) = sp_digits(s);
    if d.len() == 0 {
        None
    } else if d.len() > 1 && d[0] == '0' {
        None
    } else {
        Some((seq_val(d), r))
    }
}

pub open spec fn pow10(k: nat) -> nat
    decreases k,
{
    if k == 0 {
        1
    } else {
        10 * pow10((k - 1) as nat)
    }
}

/// Shape of the decimal rendering: nonempty, all digits, no leading zero.
pub proof fn lemma_dec_digits(n: nat)
    ensures
        spec_u64_dec(n).len() >= 1,
        forall|i: int| 0 <= i < spec_u64_dec(n).len() ==> is_digit(#[trigger] spec_u64_dec(n)[i]),
        n > 0 ==> spec_u64_dec(n)[0] != '0',
    decreases n,
{
    if n < 10 {
        assert(is_digit(dig(n)));
        if n > 0 {
            assert(dig(n) != '0');
        }
    } else {
        lemma_dec_digits(n / 10);
        let hd = spec_u64_dec(n / 10);
        let d = spec_u64_dec(n);
        assert(d == hd + seq![dig(n % 10)]);
        assert(is_digit(dig(n % 10)));
        assert(forall|i: int| 0 <= i < hd.len() ==> #[trigger] d[i] == hd[i]);
        assert(d[hd.len() as int] == dig(n % 10));
        assert(n / 10 > 0);
        assert(d[0] == hd[0]);
    }
}

/// The digit splitter returns a digit prefix followed by a non-digit.
pub proof fn lemma_sp_digits_shape(s: Seq<char>)
    ensures
        s == sp_digits(s).0 + sp_digits(s).1,
        forall|i: int|
            0 <= i < sp_digits(s).0.len() ==> is_digit(#[trigger] sp_digits(s).0[i]),
        sp_digits(s).1.len() == 0 || !is_digit(sp_digits(s).1[0]),
    decreases s.len(),
{
    if s.len() > 0 && is_digit(s[0]) {
        lemma_sp_digits_shape(s.skip(1));
        let (d2, r2) = sp_digits(s.skip(1));
        assert(s =~= seq![s[0]] + (d2 + r2));
        assert(s =~= (seq![s[0]] + d2) + r2);
        let d = seq![s[0]] + d2;
        assert(forall|i: int| 1 <= i < d.len() ==> #[trigger] d[i] == d2[i - 1]);
    }
}

/// The digit splitter recovers a digit run that is followed by a non-digit.
pub proof fn lemma_sp_digits_concat(d: Seq<char>, rest: Seq<char>)
    requires
        forall|i: int| 0 <= i < d.len() ==> is_digit(#[trigger] d[i]),
        rest.len() == 0 || !is_digit(rest[0]),
    ensures
        sp_digits(d + rest) == (d, rest),
    decreases d.len(),
{
    let s = d + rest;
    if d.len() == 0 {
        assert(s =~= rest);
        assert(sp_digits(s).0 =~= d);
    } else {
        assert(s[0] == d[0]);
        assert(s.skip(1) =~= d.skip(1) + rest);
        lemma_sp_digits_concat(d.skip(1), rest);
        assert(sp_digits(s) == (seq![d[0]] + d.skip(1), rest));
        assert(seq![d[0]] + d.skip(1) =~= d);
    }
}

/// Reading back the decimal rendering yields the value.
pub proof fn lemma_seq_val_dec(n: nat)
    ensures
        seq_val(spec_u64_dec(n)) == n,
    decreases n,
{
    if n < 10 {
        let d = spec_u64_dec(n);
        assert(d.drop_last() =~= Seq::<char>::empty());
        assert(seq_val(d.drop_last()) == 0);
        assert(digval(dig(n)) == n);
    } else {
        lemma_seq_val_dec(n / 10);
        let hd = spec_u64_dec(n / 10);
        let d = spec_u64_dec(n);
        assert(d.drop_last() =~= hd);
        assert(d.last() == dig(n % 10));
        assert(digval(dig(n % 10)) == n % 10);
        assert(seq_val(d) == (n / 10) * 10 + n % 10);
        assert((n / 10) * 10 + n % 10 == n) by (nonlinear_arith);
    }
}

/// A digit run without a leading zero has a positive value when it does not
/// start with `'0'`.
pub proof fn lemma_seq_val_pos(d: Seq<char>)
    requires
        d.len() >= 1,
        forall|i: int| 0 <= i < d.len() ==> is_digit(#[trigger] d[i]),
        d[0] != '0',
    ensures
        seq_val(d) >= 1,
    decreases d.len(),
{
    if d.len() == 1 {
        assert(digval(d[0]) >= 1);
        assert(d.drop_last() =~= Seq::<char>::empty());
    } else {
        let dp = d.drop_last();
        assert(dp[0] == d[0]);
        lemma_seq_val_pos(dp);
    }
}

/// Rendering the value of a well-formed digit run gives the run back.
pub proof fn lemma_dec_seq_val(d: Seq<char>)
    requires
        d.len() >= 1,
        forall|i: int| 0 <= i < d.len() ==> is_digit(#[trigger] d[i]),
        d.len() == 1 || d[0] != '0',
    ensures
        spec_u64_dec(seq_val(d)) == d,
    decreases d.len(),
{
    if d.len() == 1 {
        assert(d.drop_last() =~= Seq::<char>::empty());
        assert(seq_val(d.drop_last()) == 0);
        assert(d.last() == d[0]);
        assert(seq_val(d) == digval(d[0]));
        assert(seq_val(d) < 10);
        assert(dig(digval(d[0])) == d[0]);
        assert(spec_u64_dec(seq_val(d)) =~= d);
    } else {
        let dp = d.drop_last();
        let dv = digval(d.last());
        assert(dp[0] == d[0]);
        assert(forall|i: int| 0 <= i < dp.len() ==> #[trigger] dp[i] == d[i]);
        lemma_dec_seq_val(dp);
        lemma_seq_val_pos(dp);
        let vp = seq_val(dp);
        let v = seq_val(d);
        assert(v == vp * 10 + dv);
        assert(dv < 10);
        assert(v >= 10) by (nonlinear_arith)
            requires
                v == vp * 10 + dv,
                vp >= 1,
        ;
        assert(v / 10 == vp && v % 10 == dv) by (nonlinear_arith)
            requires
                v == vp * 10 + dv,
                dv < 10,
        ;
        assert(spec_u64_dec(v) == spec_u64_dec(vp) + seq![dig(dv)]);
        assert(dig(digval(d.last())) == d.last());
        assert(dp + seq![d.last()] =~= d);
    }
}

/// The number parser inverts the renderer when the rest does not begin with
/// a digit.
pub proof fn lemma_sp_u64_complete(n: nat, rest: Seq<char>)
    requires
        rest.len() == 0 || !is_digit(rest[0]),
    ensures
        sp_u64(spec_u64_dec(n) + rest) == Some((n, rest)),
{
    lemma_dec_digits(n);
    lemma_sp_digits_concat(spec_u64_dec(n), rest);
    lemma_seq_val_dec(n);
}

/// A successful number parse pins the consumed input down to the rendering
/// of the value.
pub proof fn lemma_sp_u64_sound(s: Seq<char>)
    ensures
        sp_u64(s) matches Some((n, r)) ==> s == spec_u64_dec(n) + r,
{
    if sp_u64(s) is Some {
        lemma_sp_digits_shape(s);
        let (d, r) = sp_digits(s);
        lemma_dec_seq_val(d);
    }
}

/// Value bounds for digit runs, tied to their length.
pub proof fn lemma_seq_val_upper(d: Seq<char>)
    requires
        forall|i: int| 0 <= i < d.len() ==> is_digit(#[trigger] d[i]),
    ensures
        seq_val(d) < pow10(d.len()),
    decreases d.len(),
{
    if d.len() > 0 {
        let dp = d.drop_last();
        assert(forall|i: int| 0 <= i < dp.len() ==> #[trigger] dp[i] == d[i]);
        lemma_seq_val_upper(dp);
        assert(digval(d.last()) <= 9);
    }
}

pub proof fn lemma_seq_val_lower(d: Seq<char>)
    requires
        d.len() >= 1,
        forall|i: int| 0 <= i < d.len() ==> is_digit(#[trigger] d[i]),
        d[0] != '0',
    ensures
        seq_val(d) >= pow10((d.len() - 1) as nat),
    decreases d.len(),
{
    if d.len() == 1 {
        assert(d.drop_last() =~= Seq::<char>::empty());
        assert(digval(d[0]) >= 1);
    } else {
        let dp = d.drop_last();
        assert(dp[0] == d[0]);
        assert(forall|i: int| 0 <= i < dp.len() ==> #[trigger] dp[i] == d[i]);
        lemma_seq_val_lower(dp);
    }
}

/// `pow10` grows with its argument.
pub proof fn lemma_pow10_mono(a: nat, b: nat)
    requires
        a <= b,
    ensures
        pow10(a) <= pow10(b),
    decreases b,
{
    if a < b {
        lemma_pow10_mono(a, (b - 1) as nat);
        assert(pow10((b - 1) as nat) >= 1) by {
            lemma_pow10_pos((b - 1) as nat);
        }
    }
}

pub proof fn lemma_pow10_pos(k: nat)
    ensures
        pow10(k) >= 1,
    decreases k,
{
    if k > 0 {
        lemma_pow10_pos((k - 1) as nat);
    }
}

/// Twenty decimal digits already name more values than `u64` holds.
pub proof fn lemma_pow10_20()
    ensures
        pow10(20) == 100000000000000000000,
{
    reveal_with_fuel(pow10, 21);
}

// ---------------------------------------------------------------------------
// Executable printers
// ---------------------------------------------------------------------------

/// Append the characters of a literal fragment.
pub fn push_lit(out: &mut Vec<char>, l: &str)
    ensures
        final(out)@ == old(out)@ + l@,
{
    let n = l.unicode_len();
    let mut k: usize = 0;
    while k < n
        invariant
            k <= n,
            n == l@.len(),
            out@ == old(out)@ + l@.take(k as int),
        decreases n - k,
    {
        out.push(l.get_char(k));
        k += 1;
        proof {
            assert(l@.take(k as int) =~= l@.take(k - 1) + seq![l@[k - 1]]);
            assert(out@ =~= old(out)@ + l@.take(k as int));
        }
    }
    proof {
        assert(l@.take(n as int) =~= l@);
    }
}

/// Append the escaped wire form of a string body.
pub fn push_escaped(out: &mut Vec<char>, s: &str)
    ensures
        final(out)@ == old(out)@ + esc(s@),
{
    let n = s.unicode_len();
    let mut k: usize = 0;
    proof {
        assert(s@.take(0) =~= Seq::<char>::empty());
        assert(esc(s@.take(0)) == Seq::<char>::empty());
        assert(out@ =~= old(out)@ + esc(s@.take(0)));
    }
    while k < n
        invariant
            k <= n,
            n == s@.len(),
            out@ == old(out)@ + esc(s@.take(k as int)),
        decreases n - k,
    {
        let c = s.get_char(k);
        if c == '"' {
            out.push('\\');
            out.push('"');
        } else if c == '\\' {
            out.push('\\');
            out.push('\\');
        } else if c == '\n' {
            out.push('\\');
            out.push('n');
        } else if c == '\r' {
            out.push('\\');
            out.push('r');
        } else if c == '\t' {
            out.push('\\');
            out.push('t');
        } else {
            out.push(c);
        }
        proof {
            lemma_esc_push(s@.take(k as int), c);
            assert(s@.take(k + 1) =~= s@.take(k as int) + seq![c]);
            assert(out@ =~= old(out)@ + esc(s@.take(k + 1)));
        }
        k += 1;
    }
    proof {
        assert(s@.take(n as int) =~= s@);
    }
}

/// The digit character of a value below ten.
fn dig_char(n: u64) -> (c: char)
    requires
        n < 10,
    ensures
        c == dig(n as nat),
{
    if n == 1 {
        '1'
    } else if n == 2 {
        '2'
    } else if n == 3 {
        '3'
    } else if n == 4 {
        '4'
    } else if n == 5 {
        '5'
    } else if n == 6 {
        '6'
    } else if n == 7 {
        '7'
    } else if n == 8 {
        '8'
    } else if n == 9 {
        '9'
    } else {
        '0'
    }
}

/// Append the shortest decimal rendering of `n`.
pub fn push_u64(out: &mut Vec<char>, n: u64)
    ensures
        final(out)@ == old(out)@ + spec_u64_dec(n as nat),
    decreases n,
{
    if n < 10 {
        out.push(dig_char(n));
        proof {
            assert(out@ =~= old(out)@ + spec_u64_dec(n as nat));
        }
    } else {
        push_u64(out, n / 10);
        out.push(dig_char(n % 10));
        proof {
            assert(out@ =~= old(out)@ + (spec_u64_dec(n as nat / 10) + seq![dig(n as nat % 10)]));
        }
    }
}

// ---------------------------------------------------------------------------
// Executable parsers
// ---------------------------------------------------------------------------

fn is_digit_char(c: char) -> (b: bool)
    ensures
        b == is_digit(c),
{
    c == '0' || c == '1' || c == '2' || c == '3' || c == '4' || c == '5' || c == '6' || c == '7'
        || c == '8' || c == '9'
}

fn digval_char(c: char) -> (n: u64)
    ensures
        n as nat == digval(c),
        n < 10,
{
    if c == '1' {
        1
    } else if c == '2' {
        2
    } else if c == '3' {
        3
    } else if c == '4' {
        4
    } else if c == '5' {
        5
    } else if c == '6' {
        6
    } else if c == '7' {
        7
    } else if c == '8' {
        8
    } else if c == '9' {
        9
    } else {
        0
    }
}

fn unesc_char(c: char) -> (r: Option<char>)
    ensures
        r == unesc_code(c),
{
    if c == '"' {
        Some('"')
    } else if c == '\\' {
        Some('\\')
    } else if c == 'n' {
        Some('\n')
    } else if c == 'r' {
        Some('\r')
    } else if c == 't' {
        Some('\t')
    } else {
        None
    }
}

/// Expect the literal `l` at position `i`; return the position after it.
pub fn p_lit(s: &Vec<char>, i: usize, l: &str) -> (r: Option<usize>)
    requires
        i <= s@.len(),
    ensures
        r matches Some(j) ==> i <= j <= s@.len() && sp_lit(s@.skip(i as int), l@) == Some(
            s@.skip(j as int),
        ),
        r is None ==> sp_lit(s@.skip(i as int), l@) is None,
{
    let m = l.unicode_len();
    if s.len() - i < m {
        proof {
            assert(s@.skip(i as int).len() < l@.len());
        }
        return None;
    }
    let mut k: usize = 0;
    while k < m
        invariant
            k <= m,
            m == l@.len(),
            i <= s@.len(),
            m <= s@.len() - i,
            s@.len() <= usize::MAX,
            forall|t: int| 0 <= t < k ==> s@[i + t] == l@[t],
        decreases m - k,
    {
        if s[i + k] != l.get_char(k) {
            proof {
                let rem = s@.skip(i as int);
                assert(rem.take(m as int)[k as int] == s@[i + k]);
                assert(rem.take(m as int) != l@);
            }
            return None;
        }
        k += 1;
    }
    proof {
        let rem = s@.skip(i as int);
        assert(rem.take(m as int) =~= l@);
        assert(rem.skip(m as int) =~= s@.skip(i + m));
    }
    Some(i + m)
}

/// Glue a prefix onto the value a string parse returns.
pub open spec fn str_cont(a: Seq<char>, o: Option<(Seq<char>, Seq<char>)>) -> Option<
    (Seq<char>, Seq<char>),
> {
    match o {
        None => None,
        Some((v, r)) => Some((a + v, r)),
    }
}

proof fn lemma_str_cont_empty(o: Option<(Seq<char>, Seq<char>)>)
    ensures
        str_cont(Seq::empty(), o) == o,
{
    if o is Some {
        let (v, r) = o->Some_0;
        assert(Seq::empty() + v =~= v);
    }
}

proof fn lemma_str_cont_assoc(a: Seq<char>, b: Seq<char>, o: Option<(Seq<char>, Seq<char>)>)
    ensures
        str_cont(a, str_cont(b, o)) == str_cont(a + b, o),
{
    if o is Some {
        let (v, r) = o->Some_0;
        assert(a + (b + v) =~= (a + b) + v);
    }
}

/// Parse a string body (after the opening quote) at position `i`.
pub fn p_str(s: &Vec<char>, i: usize) -> (r: Option<(Vec<char>, usize)>)
    requires
        i <= s@.len(),
    ensures
        r matches Some((v, j)) ==> i <= j <= s@.len() && sp_str(s@.skip(i as int)) == Some(
            (v@, s@.skip(j as int)),
        ),
        r is None ==> sp_str(s@.skip(i as int)) is None,
{
    let mut acc: Vec<char> = Vec::new();
    let mut cur: usize = i;
    proof {
        lemma_str_cont_empty(sp_str(s@.skip(i as int)));
    }
    loop
        invariant
            i <= cur <= s@.len(),
            sp_str(s@.skip(i as int)) == str_cont(acc@, sp_str(s@.skip(cur as int))),
        decreases s@.len() - cur,
    {
        if cur >= s.len() {
            proof {
                assert(s@.skip(cur as int).len() == 0);
            }
            return None;
        }
        let c = s[cur];
        proof {
            assert(s@.skip(cur as int)[0] == c);
        }
        if c == '"' {
            proof {
                assert(s@.skip(cur as int).skip(1) =~= s@.skip(cur + 1));
                assert(sp_str(s@.skip(cur as int)) == Some(
                    (Seq::<char>::empty(), s@.skip(cur + 1)),
                ));
                assert(acc@ + Seq::<char>::empty() =~= acc@);
            }
            return Some((acc, cur + 1));
        } else if c == '\\' {
            if cur + 1 >= s.len() {
                proof {
                    assert(s@.skip(cur as int).len() < 2);
                }
                return None;
            }
            let code = s[cur + 1];
            proof {
                assert(s@.skip(cur as int)[1] == code);
            }
            match unesc_char(code) {
                None => {
                    return None;
                },
                Some(ch) => {
                    proof {
                        assert(s@.skip(cur as int).skip(2) =~= s@.skip(cur + 2));
                        lemma_str_cont_assoc(acc@, seq![ch], sp_str(s@.skip(cur + 2)));
                        assert(acc@ + seq![ch] =~= acc@.push(ch));
                    }
                    acc.push(ch);
                    cur = cur + 2;
                },
            }
        } else if c == '\n' || c == '\r' || c == '\t' {
            return None;
        } else {
            proof {
                assert(s@.skip(cur as int).skip(1) =~= s@.skip(cur + 1));
                lemma_str_cont_assoc(acc@, seq![c], sp_str(s@.skip(cur + 1)));
                assert(acc@ + seq![c] =~= acc@.push(c));
            }
            acc.push(c);
            cur = cur + 1;
        }
    }
}

/// Parse an unsigned decimal number at position `i`. `None` is returned both
/// on malformed input and on a well-formed number that exceeds `u64::MAX`.
pub fn p_u64(s: &Vec<char>, i: usize) -> (r: Option<(u64, usize)>)
    requires
        i <= s@.len(),
    ensures
        r matches Some((n, j)) ==> i <= j <= s@.len() && sp_u64(s@.skip(i as int)) == Some(
            (n as nat, s@.skip(j as int)),
        ),
        r is None ==> sp_u64(s@.skip(i as int)) is None || (sp_u64(s@.skip(i as int)) matches Some(
            (n, _),
        ) && n > u64::MAX),
{
    let mut j: usize = i;
    while j < s.len() && is_digit_char(s[j])
        invariant
            i <= j <= s@.len(),
            forall|t: int| i <= t < j ==> is_digit(#[trigger] s@[t]),
        decreases s@.len() - j,
    {
        j += 1;
    }
    let ghost d = s@.subrange(i as int, j as int);
    let ghost rest = s@.skip(j as int);
    proof {
        assert(s@.skip(i as int) =~= d + rest);
        assert(forall|t: int| 0 <= t < d.len() ==> is_digit(#[trigger] d[t]));
        if j < s@.len() {
            assert(rest[0] == s@[j as int]);
        }
        lemma_sp_digits_concat(d, rest);
    }
    if j == i {
        return None;
    }
    if j - i > 1 && s[i] == '0' {
        proof {
            assert(d[0] == '0');
        }
        return None;
    }
    proof {
        assert(d[0] == s@[i as int]);
    }
    if j - i > 20 {
        proof {
            lemma_seq_val_lower(d);
            lemma_pow10_mono(20, (d.len() - 1) as nat);
            lemma_pow10_20();
        }
        return None;
    }
    let mut acc: u128 = 0;
    let mut k: usize = i;
    proof {
        assert(s@.subrange(i as int, i as int) =~= Seq::<char>::empty());
        assert(pow10(0) == 1);
    }
    while k < j
        invariant
            i <= k <= j <= s@.len(),
            j - i <= 20,
            forall|t: int| i <= t < j ==> is_digit(#[trigger] s@[t]),
            acc as nat == seq_val(s@.subrange(i as int, k as int)),
            (acc as nat) < pow10((k - i) as nat),
        decreases j - k,
    {
        let dv = digval_char(s[k]);
        proof {
            let dpre = s@.subrange(i as int, k as int);
            let dnext = s@.subrange(i as int, k + 1);
            assert(dnext.drop_last() =~= dpre);
            assert(dnext.last() == s@[k as int]);
            lemma_pow10_mono((k - i + 1) as nat, 20);
            lemma_pow10_20();
        }
        acc = acc * 10 + (dv as u128);
        k += 1;
    }
    proof {
        assert(s@.subrange(i as int, j as int) =~= d);
    }
    if acc > u64::MAX as u128 {
        return None;
    }
    Some((acc as u64, j))
}

} // verus!
