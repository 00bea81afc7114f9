//! Field-level combinators of the envelope wire format: a JSON object is a
//! fixed sequence of keyed fields, and each field shape (string, number,
//! optional string, array) has one reader here.
//!
//! A "key" below is the literal fragment that precedes a field's value on
//! the wire, including the separating punctuation; for plain string fields
//! it also carries the value's opening quote. Readers are strict, and each
//! comes with a completeness lemma (reading what the printer wrote yields
//! the value) and a soundness lemma (a successful read pins the text down).

use vstd::prelude::*;

use crate::json::{
    esc, is_digit, lemma_dec_digits, lemma_sp_digits_shape, lemma_sp_lit_complete,
    lemma_sp_lit_sound, lemma_sp_str_complete, lemma_sp_str_shrinks, lemma_sp_str_sound,
    lemma_sp_u64_complete, lemma_sp_u64_sound, p_lit, p_str, p_u64, push_escaped, push_lit,
    push_u64, sp_lit, sp_str, sp_u64, spec_u64_dec,
};
use crate::runtime::chars_to_string;

verus! {

// ---------------------------------------------------------------------------
// Spec-level field readers and their printed forms
// ---------------------------------------------------------------------------

/// Printed form of a string field: key (ending in the opening quote),
/// escaped value, closing quote.
pub open spec fn enc_str_field(k: Seq<char>, v: Seq<char>) -> Seq<char> {
    k + esc(v) + seq!['"']
}

pub open spec fn sp_key_str(s: Seq<char>, k: Seq<char>) -> Option<(Seq<char>, Seq<char>)> {
    match sp_lit(s, k) {
        None => None,
        Some(r) => sp_str(r),
    }
}

pub proof fn lemma_key_str_complete(k: Seq<char>, v: Seq<char>, rest: Seq<char>)
    ensures
        sp_key_str(enc_str_field(k, v) + rest, k) == Some((v, rest)),
{
    let tail = esc(v) + seq!['"'] + rest;
    assert(enc_str_field(k, v) + rest =~= k + tail);
    lemma_sp_lit_complete(k, tail);
    lemma_sp_str_complete(v, rest);
}

pub proof fn lemma_key_str_sound(s: Seq<char>, k: Seq<char>)
    ensures
        sp_key_str(s, k) matches Some((v, r)) ==> s == enc_str_field(k, v) + r,
{
    if sp_key_str(s, k) is Some {
        let (v, r) = sp_key_str(s, k)->Some_0;
        lemma_sp_lit_sound(s, k);
        let r1 = sp_lit(s, k)->Some_0;
        lemma_sp_str_sound(r1);
        assert(s =~= (k + (esc(v) + seq!['"'])) + r);
        assert(enc_str_field(k, v) + r =~= (k + (esc(v) + seq!['"'])) + r);
    }
}

/// Printed form of a `u64` field: key, then the decimal rendering.
pub open spec fn enc_u64_field(k: Seq<char>, n: u64) -> Seq<char> {
    k + spec_u64_dec(n as nat)
}

/// Read a `u64` field; a number over `u64::MAX` is malformed.
pub open spec fn sp_key_u64(s: Seq<char>, k: Seq<char>) -> Option<(u64, Seq<char>)> {
    match sp_lit(s, k) {
        None => None,
        Some(r) => match sp_u64(r) {
            None => None,
            Some((n, r2)) => if n <= u64::MAX {
                Some((n as u64, r2))
            } else {
                None
            },
        },
    }
}

pub proof fn lemma_key_u64_complete(k: Seq<char>, n: u64, rest: Seq<char>)
    requires
        rest.len() == 0 || !is_digit(rest[0]),
    ensures
        sp_key_u64(enc_u64_field(k, n) + rest, k) == Some((n, rest)),
{
    let tail = spec_u64_dec(n as nat) + rest;
    assert(enc_u64_field(k, n) + rest =~= k + tail);
    lemma_sp_lit_complete(k, tail);
    lemma_sp_u64_complete(n as nat, rest);
}

pub proof fn lemma_key_u64_sound(s: Seq<char>, k: Seq<char>)
    ensures
        sp_key_u64(s, k) matches Some((n, r)) ==> s == enc_u64_field(k, n) + r,
{
    if sp_key_u64(s, k) is Some {
        let (n, r) = sp_key_u64(s, k)->Some_0;
        lemma_sp_lit_sound(s, k);
        let r1 = sp_lit(s, k)->Some_0;
        lemma_sp_u64_sound(r1);
        assert(s =~= (k + spec_u64_dec(n as nat)) + r);
        assert(enc_u64_field(k, n) + r =~= (k + spec_u64_dec(n as nat)) + r);
    }
}

/// Printed form and reader of a `u32` field.
pub open spec fn enc_u32_field(k: Seq<char>, n: u32) -> Seq<char> {
    k + spec_u64_dec(n as nat)
}

pub open spec fn sp_key_u32(s: Seq<char>, k: Seq<char>) -> Option<(u32, Seq<char>)> {
    match sp_key_u64(s, k) {
        None => None,
        Some((n, r)) => if n <= u32::MAX {
            Some((n as u32, r))
        } else {
            None
        },
    }
}

pub proof fn lemma_key_u32_complete(k: Seq<char>, n: u32, rest: Seq<char>)
    requires
        rest.len() == 0 || !is_digit(rest[0]),
    ensures
        sp_key_u32(enc_u32_field(k, n) + rest, k) == Some((n, rest)),
{
    lemma_key_u64_complete(k, n as u64, rest);
}

pub proof fn lemma_key_u32_sound(s: Seq<char>, k: Seq<char>)
    ensures
        sp_key_u32(s, k) matches Some((n, r)) ==> s == enc_u32_field(k, n) + r,
{
    if sp_key_u32(s, k) is Some {
        lemma_key_u64_sound(s, k);
    }
}

/// Printed form of an optional string field: key (ending in the `:`), then
/// either a quoted string or the word `null`.
pub open spec fn enc_opt_str_field(k: Seq<char>, v: Option<Seq<char>>) -> Seq<char> {
    match v {
        Some(t) => k + seq!['"'] + esc(t) + seq!['"'],
        None => k + "null"@,
    }
}

pub open spec fn sp_key_opt_str(s: Seq<char>, k: Seq<char>) -> Option<
    (Option<Seq<char>>, Seq<char>),
> {
    match sp_lit(s, k) {
        None => None,
        Some(r) => if r.len() >= 1 && r[0] == '"' {
            match sp_str(r.skip(1)) {
                None => None,
                Some((v, r2)) => Some((Some(v), r2)),
            }
        } else {
            match sp_lit(r, "null"@) {
                None => None,
                Some(r2) => Some((None, r2)),
            }
        },
    }
}

pub proof fn lemma_key_opt_str_complete(k: Seq<char>, v: Option<Seq<char>>, rest: Seq<char>)
    ensures
        sp_key_opt_str(enc_opt_str_field(k, v) + rest, k) == Some((v, rest)),
{
    reveal_strlit("null");
    match v {
        Some(t) => {
            let tail = seq!['"'] + esc(t) + seq!['"'] + rest;
            assert(enc_opt_str_field(k, v) + rest =~= k + tail);
            lemma_sp_lit_complete(k, tail);
            assert(tail[0] == '"');
            assert(tail.skip(1) =~= esc(t) + seq!['"'] + rest);
            lemma_sp_str_complete(t, rest);
        },
        None => {
            let tail = "null"@ + rest;
            assert(enc_opt_str_field(k, v) + rest =~= k + tail);
            lemma_sp_lit_complete(k, tail);
            assert(tail.len() >= 1 && tail[0] == 'n');
            lemma_sp_lit_complete("null"@, rest);
        },
    }
}

pub proof fn lemma_key_opt_str_sound(s: Seq<char>, k: Seq<char>)
    ensures
        sp_key_opt_str(s, k) matches Some((v, r)) ==> s == enc_opt_str_field(k, v) + r,
{
    if sp_key_opt_str(s, k) is Some {
        let (v, r) = sp_key_opt_str(s, k)->Some_0;
        lemma_sp_lit_sound(s, k);
        let r1 = sp_lit(s, k)->Some_0;
        if r1.len() >= 1 && r1[0] == '"' {
            lemma_sp_str_sound(r1.skip(1));
            let t = v->Some_0;
            assert(r1 =~= seq!['"'] + r1.skip(1));
            assert(s =~= (k + (seq!['"'] + (esc(t) + seq!['"']))) + r);
            assert(enc_opt_str_field(k, v) + r =~= (k + (seq!['"'] + (esc(t) + seq!['"']))) + r);
        } else {
            lemma_sp_lit_sound(r1, "null"@);
            assert(s =~= (k + "null"@) + r);
            assert(enc_opt_str_field(k, v) + r =~= (k + "null"@) + r);
        }
    }
}

// ---------------------------------------------------------------------------
// Arrays of strings
// ---------------------------------------------------------------------------

/// Printed form of the elements after the first: `,"e"` repeated, then `]`.
pub open spec fn enc_str_arr_rest(vs: Seq<Seq<char>>) -> Seq<char>
    decreases vs.len(),
{
    if vs.len() == 0 {
        seq![']']
    } else {
        seq![','] + seq!['"'] + esc(vs[0]) + seq!['"'] + enc_str_arr_rest(vs.skip(1))
    }
}

/// Printed form of a string array.
pub open spec fn enc_str_arr(vs: Seq<Seq<char>>) -> Seq<char> {
    if vs.len() == 0 {
        seq!['[', ']']
    } else {
        seq!['['] + seq!['"'] + esc(vs[0]) + seq!['"'] + enc_str_arr_rest(vs.skip(1))
    }
}

/// After one element: either the closing bracket or a comma and another
/// element.
pub open spec fn sp_str_arr_rest(s: Seq<char>) -> Option<(Seq<Seq<char>>, Seq<char>)>
    decreases s.len(),
    via sp_str_arr_rest_dec
{
    if s.len() == 0 {
        None
    } else if s[0] == ']' {
        Some((Seq::empty(), s.skip(1)))
    } else if s[0] == ',' && s.len() >= 2 && s[1] == '"' {
        match sp_str(s.skip(2)) {
            None => None,
            Some((v, r)) => match sp_str_arr_rest(r) {
                None => None,
                Some((vs, r2)) => Some((seq![v] + vs, r2)),
            },
        }
    } else {
        None
    }
}

#[via_fn]
proof fn sp_str_arr_rest_dec(s: Seq<char>) {
    if s.len() >= 2 && s[0] == ',' && s[1] == '"' {
        lemma_sp_str_shrinks(s.skip(2));
    }
}

/// A whole string array: `[`, then empty or a first element and the rest.
pub open spec fn sp_str_arr(s: Seq<char>) -> Option<(Seq<Seq<char>>, Seq<char>)> {
    if s.len() >= 2 && s[0] == '[' && s[1] == ']' {
        Some((Seq::empty(), s.skip(2)))
    } else if s.len() >= 2 && s[0] == '[' && s[1] == '"' {
        match sp_str(s.skip(2)) {
            None => None,
            Some((v, r)) => match sp_str_arr_rest(r) {
                None => None,
                Some((vs, r2)) => Some((seq![v] + vs, r2)),
            },
        }
    } else {
        None
    }
}

pub proof fn lemma_str_arr_rest_complete(vs: Seq<Seq<char>>, rest: Seq<char>)
    ensures
        sp_str_arr_rest(enc_str_arr_rest(vs) + rest) == Some((vs, rest)),
    decreases vs.len(),
{
    let s = enc_str_arr_rest(vs) + rest;
    if vs.len() == 0 {
        assert(s =~= seq![']'] + rest);
        assert(s[0] == ']');
        assert(s.skip(1) =~= rest);
        assert(sp_str_arr_rest(s) == Some((Seq::<Seq<char>>::empty(), rest)));
        assert(Seq::<Seq<char>>::empty() =~= vs);
    } else {
        lemma_str_arr_rest_complete(vs.skip(1), rest);
        assert(s[0] == ',');
        assert(s[1] == '"');
        assert(s.skip(2) =~= esc(vs[0]) + seq!['"'] + (enc_str_arr_rest(vs.skip(1)) + rest));
        lemma_sp_str_complete(vs[0], enc_str_arr_rest(vs.skip(1)) + rest);
        assert(seq![vs[0]] + vs.skip(1) =~= vs);
    }
}

pub proof fn lemma_str_arr_complete(vs: Seq<Seq<char>>, rest: Seq<char>)
    ensures
        sp_str_arr(enc_str_arr(vs) + rest) == Some((vs, rest)),
{
    let s = enc_str_arr(vs) + rest;
    if vs.len() == 0 {
        assert(s[0] == '[' && s[1] == ']');
        assert(s.skip(2) =~= rest);
        assert(Seq::<Seq<char>>::empty() =~= vs);
    } else {
        assert(s[0] == '[');
        assert(s[1] == '"');
        assert(s.skip(2) =~= esc(vs[0]) + seq!['"'] + (enc_str_arr_rest(vs.skip(1)) + rest));
        lemma_sp_str_complete(vs[0], enc_str_arr_rest(vs.skip(1)) + rest);
        lemma_str_arr_rest_complete(vs.skip(1), rest);
        assert(seq![vs[0]] + vs.skip(1) =~= vs);
    }
}

pub proof fn lemma_str_arr_rest_sound(s: Seq<char>)
    ensures
        sp_str_arr_rest(s) matches Some((vs, r)) ==> s == enc_str_arr_rest(vs) + r,
    decreases s.len(),
{
    if sp_str_arr_rest(s) is Some {
        let (vs, r) = sp_str_arr_rest(s)->Some_0;
        if s[0] == ']' {
            assert(vs =~= Seq::<Seq<char>>::empty());
            assert(s =~= seq![']'] + s.skip(1));
        } else {
            let (v, r1) = sp_str(s.skip(2))->Some_0;
            lemma_sp_str_sound(s.skip(2));
            lemma_sp_str_shrinks(s.skip(2));
            lemma_str_arr_rest_sound(r1);
            let (vs2, r2) = sp_str_arr_rest(r1)->Some_0;
            assert(vs == seq![v] + vs2);
            assert(vs[0] == v);
            assert(vs.skip(1) =~= vs2);
            assert(s =~= seq![s[0], s[1]] + s.skip(2));
            assert(s =~= seq![','] + seq!['"'] + esc(v) + seq!['"'] + (enc_str_arr_rest(vs2) + r));
            assert(enc_str_arr_rest(vs) + r =~= seq![','] + seq!['"'] + esc(v) + seq!['"'] + (
            enc_str_arr_rest(vs2) + r));
        }
    }
}

pub proof fn lemma_str_arr_sound(s: Seq<char>)
    ensures
        sp_str_arr(s) matches Some((vs, r)) ==> s == enc_str_arr(vs) + r,
{
    if sp_str_arr(s) is Some {
        let (vs, r) = sp_str_arr(s)->Some_0;
        if s.len() >= 2 && s[0] == '[' && s[1] == ']' {
            assert(vs =~= Seq::<Seq<char>>::empty());
            assert(s =~= seq!['[', ']'] + s.skip(2));
        } else {
            let (v, r1) = sp_str(s.skip(2))->Some_0;
            lemma_sp_str_sound(s.skip(2));
            lemma_str_arr_rest_sound(r1);
            let (vs2, r2) = sp_str_arr_rest(r1)->Some_0;
            assert(vs[0] == v);
            assert(vs.skip(1) =~= vs2);
            assert(s =~= seq![s[0], s[1]] + s.skip(2));
            assert(s =~= seq!['['] + seq!['"'] + esc(v) + seq!['"'] + (enc_str_arr_rest(vs2) + r));
            assert(enc_str_arr(vs) + r =~= seq!['['] + seq!['"'] + esc(v) + seq!['"'] + (
            enc_str_arr_rest(vs2) + r));
        }
    }
}

/// Keyed string-array field.
pub open spec fn enc_str_arr_field(k: Seq<char>, vs: Seq<Seq<char>>) -> Seq<char> {
    k + enc_str_arr(vs)
}

pub open spec fn sp_key_str_arr(s: Seq<char>, k: Seq<char>) -> Option<
    (Seq<Seq<char>>, Seq<char>),
> {
    match sp_lit(s, k) {
        None => None,
        Some(r) => sp_str_arr(r),
    }
}

pub proof fn lemma_key_str_arr_complete(k: Seq<char>, vs: Seq<Seq<char>>, rest: Seq<char>)
    ensures
        sp_key_str_arr(enc_str_arr_field(k, vs) + rest, k) == Some((vs, rest)),
{
    let tail = enc_str_arr(vs) + rest;
    assert(enc_str_arr_field(k, vs) + rest =~= k + tail);
    lemma_sp_lit_complete(k, tail);
    lemma_str_arr_complete(vs, rest);
}

pub proof fn lemma_key_str_arr_sound(s: Seq<char>, k: Seq<char>)
    ensures
        sp_key_str_arr(s, k) matches Some((vs, r)) ==> s == enc_str_arr_field(k, vs) + r,
{
    if sp_key_str_arr(s, k) is Some {
        let (vs, r) = sp_key_str_arr(s, k)->Some_0;
        lemma_sp_lit_sound(s, k);
        let r1 = sp_lit(s, k)->Some_0;
        lemma_str_arr_sound(r1);
        assert(s =~= (k + enc_str_arr(vs)) + r);
        assert(enc_str_arr_field(k, vs) + r =~= (k + enc_str_arr(vs)) + r);
    }
}

// ---------------------------------------------------------------------------
// Arrays of 32-bit values
// ---------------------------------------------------------------------------

pub open spec fn enc_u32_arr_rest(vs: Seq<u32>) -> Seq<char>
    decreases vs.len(),
{
    if vs.len() == 0 {
        seq![']']
    } else {
        seq![','] + spec_u64_dec(vs[0] as nat) + enc_u32_arr_rest(vs.skip(1))
    }
}

pub open spec fn enc_u32_arr(vs: Seq<u32>) -> Seq<char> {
    if vs.len() == 0 {
        seq!['[', ']']
    } else {
        seq!['['] + spec_u64_dec(vs[0] as nat) + enc_u32_arr_rest(vs.skip(1))
    }
}

pub open spec fn sp_u32_val(s: Seq<char>) -> Option<(u32, Seq<char>)> {
    match sp_u64(s) {
        None => None,
        Some((n, r)) => if n <= u32::MAX {
            Some((n as u32, r))
        } else {
            None
        },
    }
}

pub proof fn lemma_sp_u64_shrinks(s: Seq<char>)
    ensures
        sp_u64(s) matches Some((n, r)) ==> r.len() < s.len(),
{
    if sp_u64(s) is Some {
        lemma_sp_digits_shape(s);
    }
}

pub open spec fn sp_u32_arr_rest(s: Seq<char>) -> Option<(Seq<u32>, Seq<char>)>
    decreases s.len(),
    via sp_u32_arr_rest_dec
{
    if s.len() == 0 {
        None
    } else if s[0] == ']' {
        Some((Seq::empty(), s.skip(1)))
    } else if s[0] == ',' {
        match sp_u32_val(s.skip(1)) {
            None => None,
            Some((n, r)) => match sp_u32_arr_rest(r) {
                None => None,
                Some((vs, r2)) => Some((seq![n] + vs, r2)),
            },
        }
    } else {
        None
    }
}

#[via_fn]
proof fn sp_u32_arr_rest_dec(s: Seq<char>) {
    if s.len() > 0 && s[0] == ',' {
        lemma_sp_u64_shrinks(s.skip(1));
    }
}

pub open spec fn sp_u32_arr(s: Seq<char>) -> Option<(Seq<u32>, Seq<char>)> {
    if s.len() >= 2 && s[0] == '[' && s[1] == ']' {
        Some((Seq::empty(), s.skip(2)))
    } else if s.len() >= 1 && s[0] == '[' {
        match sp_u32_val(s.skip(1)) {
            None => None,
            Some((n, r)) => match sp_u32_arr_rest(r) {
                None => None,
                Some((vs, r2)) => Some((seq![n] + vs, r2)),
            },
        }
    } else {
        None
    }
}

pub proof fn lemma_u32_arr_rest_complete(vs: Seq<u32>, rest: Seq<char>)
    requires
        rest.len() == 0 || !is_digit(rest[0]),
    ensures
        sp_u32_arr_rest(enc_u32_arr_rest(vs) + rest) == Some((vs, rest)),
    decreases vs.len(),
{
    let s = enc_u32_arr_rest(vs) + rest;
    if vs.len() == 0 {
        assert(s =~= seq![']'] + rest);
        assert(s[0] == ']');
        assert(s.skip(1) =~= rest);
        assert(Seq::<u32>::empty() =~= vs);
    } else {
        lemma_u32_arr_rest_complete(vs.skip(1), rest);
        let tail2 = enc_u32_arr_rest(vs.skip(1)) + rest;
        assert(s[0] == ',') by {
            lemma_dec_digits(vs[0] as nat);
        }
        assert(s.skip(1) =~= spec_u64_dec(vs[0] as nat) + tail2);
        assert(tail2.len() >= 1);
        assert(!is_digit(tail2[0])) by {
            if vs.skip(1).len() == 0 {
                assert(tail2[0] == ']');
            } else {
                assert(tail2[0] == ',');
            }
        }
        lemma_sp_u64_complete(vs[0] as nat, tail2);
        assert(seq![vs[0]] + vs.skip(1) =~= vs);
    }
}

pub proof fn lemma_u32_arr_complete(vs: Seq<u32>, rest: Seq<char>)
    requires
        rest.len() == 0 || !is_digit(rest[0]),
    ensures
        sp_u32_arr(enc_u32_arr(vs) + rest) == Some((vs, rest)),
{
    let s = enc_u32_arr(vs) + rest;
    if vs.len() == 0 {
        assert(s[0] == '[' && s[1] == ']');
        assert(s.skip(2) =~= rest);
        assert(Seq::<u32>::empty() =~= vs);
    } else {
        assert(s[0] == '[');
        let tail2 = enc_u32_arr_rest(vs.skip(1)) + rest;
        assert(s.skip(1) =~= spec_u64_dec(vs[0] as nat) + tail2);
        assert(tail2.len() >= 1);
        assert(!is_digit(tail2[0])) by {
            if vs.skip(1).len() == 0 {
                assert(tail2[0] == ']');
            } else {
                assert(tail2[0] == ',');
            }
        }
        lemma_sp_u64_complete(vs[0] as nat, tail2);
        lemma_u32_arr_rest_complete(vs.skip(1), rest);
        assert(seq![vs[0]] + vs.skip(1) =~= vs);
        assert(s.len() >= 2 && s[1] != ']') by {
            lemma_dec_digits(vs[0] as nat);
            assert(s[1] == spec_u64_dec(vs[0] as nat)[0]);
        }
    }
}

pub proof fn lemma_u32_arr_rest_sound(s: Seq<char>)
    ensures
        sp_u32_arr_rest(s) matches Some((vs, r)) ==> s == enc_u32_arr_rest(vs) + r,
    decreases s.len(),
{
    if sp_u32_arr_rest(s) is Some {
        let (vs, r) = sp_u32_arr_rest(s)->Some_0;
        if s[0] == ']' {
            assert(vs =~= Seq::<u32>::empty());
            assert(s =~= seq![']'] + s.skip(1));
        } else {
            let (n, r1) = sp_u32_val(s.skip(1))->Some_0;
            lemma_sp_u64_sound(s.skip(1));
            lemma_sp_u64_shrinks(s.skip(1));
            lemma_u32_arr_rest_sound(r1);
            let (vs2, r2) = sp_u32_arr_rest(r1)->Some_0;
            assert(vs[0] == n);
            assert(vs.skip(1) =~= vs2);
            assert(s =~= seq![s[0]] + s.skip(1));
            assert(s =~= seq![','] + spec_u64_dec(n as nat) + (enc_u32_arr_rest(vs2) + r));
            assert(enc_u32_arr_rest(vs) + r =~= seq![','] + spec_u64_dec(n as nat) + (
            enc_u32_arr_rest(vs2) + r));
        }
    }
}

pub proof fn lemma_u32_arr_sound(s: Seq<char>)
    ensures
        sp_u32_arr(s) matches Some((vs, r)) ==> s == enc_u32_arr(vs) + r,
{
    if sp_u32_arr(s) is Some {
        let (vs, r) = sp_u32_arr(s)->Some_0;
        if s.len() >= 2 && s[0] == '[' && s[1] == ']' {
            assert(vs =~= Seq::<u32>::empty());
            assert(s =~= seq!['[', ']'] + s.skip(2));
        } else {
            let (n, r1) = sp_u32_val(s.skip(1))->Some_0;
            lemma_sp_u64_sound(s.skip(1));
            lemma_u32_arr_rest_sound(r1);
            let (vs2, r2) = sp_u32_arr_rest(r1)->Some_0;
            assert(vs[0] == n);
            assert(vs.skip(1) =~= vs2);
            assert(s =~= seq![s[0]] + s.skip(1));
            assert(s =~= seq!['['] + spec_u64_dec(n as nat) + (enc_u32_arr_rest(vs2) + r));
            assert(enc_u32_arr(vs) + r =~= seq!['['] + spec_u64_dec(n as nat) + (enc_u32_arr_rest(
                vs2,
            ) + r));
        }
    }
}

/// Keyed `u32`-array field.
pub open spec fn enc_u32_arr_field(k: Seq<char>, vs: Seq<u32>) -> Seq<char> {
    k + enc_u32_arr(vs)
}

pub open spec fn sp_key_u32_arr(s: Seq<char>, k: Seq<char>) -> Option<(Seq<u32>, Seq<char>)> {
    match sp_lit(s, k) {
        None => None,
        Some(r) => sp_u32_arr(r),
    }
}

pub proof fn lemma_key_u32_arr_complete(k: Seq<char>, vs: Seq<u32>, rest: Seq<char>)
    requires
        rest.len() == 0 || !is_digit(rest[0]),
    ensures
        sp_key_u32_arr(enc_u32_arr_field(k, vs) + rest, k) == Some((vs, rest)),
{
    let tail = enc_u32_arr(vs) + rest;
    assert(enc_u32_arr_field(k, vs) + rest =~= k + tail);
    lemma_sp_lit_complete(k, tail);
    lemma_u32_arr_complete(vs, rest);
}

pub proof fn lemma_key_u32_arr_sound(s: Seq<char>, k: Seq<char>)
    ensures
        sp_key_u32_arr(s, k) matches Some((vs, r)) ==> s == enc_u32_arr_field(k, vs) + r,
{
    if sp_key_u32_arr(s, k) is Some {
        let (vs, r) = sp_key_u32_arr(s, k)->Some_0;
        lemma_sp_lit_sound(s, k);
        let r1 = sp_lit(s, k)->Some_0;
        lemma_u32_arr_sound(r1);
        assert(s =~= (k + enc_u32_arr(vs)) + r);
        assert(enc_u32_arr_field(k, vs) + r =~= (k + enc_u32_arr(vs)) + r);
    }
}

/// Optional `u32`-array field: either the array or the word `null`.
pub open spec fn enc_opt_u32_arr_field(k: Seq<char>, v: Option<Seq<u32>>) -> Seq<char> {
    match v {
        Some(vs) => k + enc_u32_arr(vs),
        None => k + "null"@,
    }
}

pub open spec fn sp_key_opt_u32_arr(s: Seq<char>, k: Seq<char>) -> Option<
    (Option<Seq<u32>>, Seq<char>),
> {
    match sp_lit(s, k) {
        None => None,
        Some(r) => if r.len() >= 1 && r[0] == '[' {
            match sp_u32_arr(r) {
                None => None,
                Some((vs, r2)) => Some((Some(vs), r2)),
            }
        } else {
            match sp_lit(r, "null"@) {
                None => None,
                Some(r2) => Some((None, r2)),
            }
        },
    }
}

pub proof fn lemma_key_opt_u32_arr_complete(k: Seq<char>, v: Option<Seq<u32>>, rest: Seq<char>)
    requires
        rest.len() == 0 || !is_digit(rest[0]),
    ensures
        sp_key_opt_u32_arr(enc_opt_u32_arr_field(k, v) + rest, k) == Some((v, rest)),
{
    reveal_strlit("null");
    match v {
        Some(vs) => {
            let tail = enc_u32_arr(vs) + rest;
            assert(enc_opt_u32_arr_field(k, v) + rest =~= k + tail);
            lemma_sp_lit_complete(k, tail);
            assert(tail[0] == '[');
            lemma_u32_arr_complete(vs, rest);
        },
        None => {
            let tail = "null"@ + rest;
            assert(enc_opt_u32_arr_field(k, v) + rest =~= k + tail);
            lemma_sp_lit_complete(k, tail);
            assert(tail.len() >= 1 && tail[0] == 'n');
            lemma_sp_lit_complete("null"@, rest);
        },
    }
}

pub proof fn lemma_key_opt_u32_arr_sound(s: Seq<char>, k: Seq<char>)
    ensures
        sp_key_opt_u32_arr(s, k) matches Some((v, r)) ==> s == enc_opt_u32_arr_field(k, v) + r,
{
    if sp_key_opt_u32_arr(s, k) is Some {
        let (v, r) = sp_key_opt_u32_arr(s, k)->Some_0;
        lemma_sp_lit_sound(s, k);
        let r1 = sp_lit(s, k)->Some_0;
        if r1.len() >= 1 && r1[0] == '[' {
            lemma_u32_arr_sound(r1);
            let vs = v->Some_0;
            assert(s =~= (k + enc_u32_arr(vs)) + r);
            assert(enc_opt_u32_arr_field(k, v) + r =~= (k + enc_u32_arr(vs)) + r);
        } else {
            lemma_sp_lit_sound(r1, "null"@);
            assert(s =~= (k + "null"@) + r);
            assert(enc_opt_u32_arr_field(k, v) + r =~= (k + "null"@) + r);
        }
    }
}

// ---------------------------------------------------------------------------
// Executable field readers
// ---------------------------------------------------------------------------

/// Read a string field at position `i`.
pub fn pf_str(s: &Vec<char>, i: usize, k: &str) -> (r: Option<(String, usize)>)
    requires
        i <= s@.len(),
    ensures
        r matches Some((v, j)) ==> i <= j <= s@.len() && sp_key_str(s@.skip(i as int), k@)
            == Some((v@, s@.skip(j as int))),
        r is None ==> sp_key_str(s@.skip(i as int), k@) is None,
{
    match p_lit(s, i, k) {
        None => None,
        Some(j1) => match p_str(s, j1) {
            None => None,
            Some((v, j2)) => Some((chars_to_string(&v), j2)),
        },
    }
}

/// Read a `u64` field at position `i`.
pub fn pf_u64(s: &Vec<char>, i: usize, k: &str) -> (r: Option<(u64, usize)>)
    requires
        i <= s@.len(),
    ensures
        r matches Some((n, j)) ==> i <= j <= s@.len() && sp_key_u64(s@.skip(i as int), k@)
            == Some((n, s@.skip(j as int))),
        r is None ==> sp_key_u64(s@.skip(i as int), k@) is None,
{
    match p_lit(s, i, k) {
        None => None,
        Some(j1) => match p_u64(s, j1) {
            None => None,
            Some((n, j2)) => Some((n, j2)),
        },
    }
}

/// Read a `u32` field at position `i`.
pub fn pf_u32(s: &Vec<char>, i: usize, k: &str) -> (r: Option<(u32, usize)>)
    requires
        i <= s@.len(),
    ensures
        r matches Some((n, j)) ==> i <= j <= s@.len() && sp_key_u32(s@.skip(i as int), k@)
            == Some((n, s@.skip(j as int))),
        r is None ==> sp_key_u32(s@.skip(i as int), k@) is None,
{
    match pf_u64(s, i, k) {
        None => None,
        Some((n, j)) => if n <= u32::MAX as u64 {
            Some((n as u32, j))
        } else {
            None
        },
    }
}

/// Read an optional string field at position `i`.
pub fn pf_opt_str(s: &Vec<char>, i: usize, k: &str) -> (r: Option<(Option<String>, usize)>)
    requires
        i <= s@.len(),
    ensures
        r matches Some((v, j)) ==> i <= j <= s@.len() && sp_key_opt_str(s@.skip(i as int), k@)
            == Some((v.deep_view(), s@.skip(j as int))),
        r is None ==> sp_key_opt_str(s@.skip(i as int), k@) is None,
{
    match p_lit(s, i, k) {
        None => None,
        Some(j1) => {
            if j1 < s.len() && s[j1] == '"' {
                proof {
                    assert(s@.skip(j1 as int)[0] == '"');
                    assert(s@.skip(j1 as int).skip(1) =~= s@.skip(j1 + 1));
                }
                match p_str(s, j1 + 1) {
                    None => None,
                    Some((v, j2)) => Some((Some(chars_to_string(&v)), j2)),
                }
            } else {
                proof {
                    if s@.skip(j1 as int).len() >= 1 {
                        assert(s@.skip(j1 as int)[0] == s@[j1 as int]);
                    }
                }
                match p_lit(s, j1, "null") {
                    None => None,
                    Some(j2) => Some((None, j2)),
                }
            }
        },
    }
}

/// Read a string-array field at position `i`.
pub fn pf_str_arr(s: &Vec<char>, i: usize, k: &str) -> (r: Option<(Vec<String>, usize)>)
    requires
        i <= s@.len(),
    ensures
        r matches Some((v, j)) ==> i <= j <= s@.len() && sp_key_str_arr(s@.skip(i as int), k@)
            == Some((v.deep_view(), s@.skip(j as int))),
        r is None ==> sp_key_str_arr(s@.skip(i as int), k@) is None,
{
    match p_lit(s, i, k) {
        None => None,
        Some(j1) => match p_str_arr(s, j1) {
            None => None,
            Some((v, j2)) => Some((v, j2)),
        },
    }
}

/// Parse a whole string array (starting at the `[`).
fn p_str_arr(s: &Vec<char>, i: usize) -> (r: Option<(Vec<String>, usize)>)
    requires
        i <= s@.len(),
    ensures
        r matches Some((v, j)) ==> i <= j <= s@.len() && sp_str_arr(s@.skip(i as int)) == Some(
            (v.deep_view(), s@.skip(j as int)),
        ),
        r is None ==> sp_str_arr(s@.skip(i as int)) is None,
{
    if s.len() - i >= 2 && s[i] == '[' && s[i + 1] == ']' {
        let out: Vec<String> = Vec::new();
        proof {
            assert(s@.skip(i as int)[0] == '[');
            assert(s@.skip(i as int)[1] == ']');
            assert(s@.skip(i as int).skip(2) =~= s@.skip(i + 2));
            assert(out.deep_view() =~= Seq::<Seq<char>>::empty());
        }
        return Some((out, i + 2));
    }
    if s.len() - i >= 2 && s[i] == '[' && s[i + 1] == '"' {
        proof {
            assert(s@.skip(i as int)[0] == '[');
            assert(s@.skip(i as int)[1] == '"');
            assert(s@.skip(i as int).skip(2) =~= s@.skip(i + 2));
        }
        let first = match p_str(s, i + 2) {
            None => {
                return None;
            },
            Some(f) => f,
        };
        let (v0, j0) = first;
        let mut out: Vec<String> = Vec::new();
        out.push(chars_to_string(&v0));
        let mut cur: usize = j0;
        let ghost head = seq![v0@];
        proof {
            assert(out.deep_view() =~= head);
        }
        loop
            invariant
                i <= cur <= s@.len(),
                sp_str_arr(s@.skip(i as int)) == (match sp_str_arr_rest(s@.skip(cur as int)) {
                    None => None::<(Seq<Seq<char>>, Seq<char>)>,
                    Some((vs, r2)) => Some((out.deep_view() + vs, r2)),
                }),
            decreases s@.len() - cur,
        {
            if cur >= s.len() {
                proof {
                    assert(s@.skip(cur as int).len() == 0);
                }
                return None;
            }
            let c = s[cur];
            proof {
                assert(s@.skip(cur as int)[0] == c);
            }
            if c == ']' {
                proof {
                    assert(s@.skip(cur as int).skip(1) =~= s@.skip(cur + 1));
                    assert(out.deep_view() + Seq::<Seq<char>>::empty() =~= out.deep_view());
                }
                return Some((out, cur + 1));
            } else if c == ',' {
                if s.len() - cur >= 2 && s[cur + 1] == '"' {
                    proof {
                        assert(s@.skip(cur as int)[1] == '"');
                        assert(s@.skip(cur as int).skip(2) =~= s@.skip(cur + 2));
                    }
                    match p_str(s, cur + 2) {
                        None => {
                            return None;
                        },
                        Some((v, j2)) => {
                            let ghost pre = out.deep_view();
                            out.push(chars_to_string(&v));
                            proof {
                                assert(out.deep_view() =~= pre + seq![v@]);
                                assert forall|vs: Seq<Seq<char>>|
                                    true implies (pre + seq![v@]) + vs =~= pre + (seq![v@] + vs) by {
                                }
                            }
                            cur = j2;
                        },
                    }
                } else {
                    proof {
                        if s@.skip(cur as int).len() >= 2 {
                            assert(s@.skip(cur as int)[1] == s@[cur + 1]);
                        }
                    }
                    return None;
                }
            } else {
                return None;
            }
        }
    }
    proof {
        if s@.skip(i as int).len() >= 2 {
            assert(s@.skip(i as int)[0] == s@[i as int]);
            assert(s@.skip(i as int)[1] == s@[i + 1]);
        } else if s@.skip(i as int).len() == 1 {
            assert(s@.skip(i as int)[0] == s@[i as int]);
        }
    }
    None
}

/// Parse a whole `u32` array (starting at the `[`).
fn p_u32_arr(s: &Vec<char>, i: usize) -> (r: Option<(Vec<u32>, usize)>)
    requires
        i <= s@.len(),
    ensures
        r matches Some((v, j)) ==> i <= j <= s@.len() && sp_u32_arr(s@.skip(i as int)) == Some(
            (v@, s@.skip(j as int)),
        ),
        r is None ==> sp_u32_arr(s@.skip(i as int)) is None,
{
    if s.len() - i >= 2 && s[i] == '[' && s[i + 1] == ']' {
        let out: Vec<u32> = Vec::new();
        proof {
            assert(s@.skip(i as int)[0] == '[');
            assert(s@.skip(i as int)[1] == ']');
            assert(s@.skip(i as int).skip(2) =~= s@.skip(i + 2));
            assert(out@ =~= Seq::<u32>::empty());
        }
        return Some((out, i + 2));
    }
    if i < s.len() && s[i] == '[' {
        proof {
            assert(s@.skip(i as int)[0] == '[');
            assert(s@.skip(i as int).skip(1) =~= s@.skip(i + 1));
        }
        let first = match p_u32_val(s, i + 1) {
            None => {
                return None;
            },
            Some(f) => f,
        };
        let (v0, j0) = first;
        let mut out: Vec<u32> = Vec::new();
        out.push(v0);
        let mut cur: usize = j0;
        proof {
            assert(out@ =~= seq![v0]);
        }
        loop
            invariant
                i <= cur <= s@.len(),
                sp_u32_arr(s@.skip(i as int)) == (match sp_u32_arr_rest(s@.skip(cur as int)) {
                    None => None::<(Seq<u32>, Seq<char>)>,
                    Some((vs, r2)) => Some((out@ + vs, r2)),
                }),
            decreases s@.len() - cur,
        {
            if cur >= s.len() {
                proof {
                    assert(s@.skip(cur as int).len() == 0);
                }
                return None;
            }
            let c = s[cur];
            proof {
                assert(s@.skip(cur as int)[0] == c);
            }
            if c == ']' {
                proof {
                    assert(s@.skip(cur as int).skip(1) =~= s@.skip(cur + 1));
                    assert(out@ + Seq::<u32>::empty() =~= out@);
                }
                return Some((out, cur + 1));
            } else if c == ',' {
                proof {
                    assert(s@.skip(cur as int).skip(1) =~= s@.skip(cur + 1));
                }
                match p_u32_val(s, cur + 1) {
                    None => {
                        return None;
                    },
                    Some((v, j2)) => {
                        let ghost pre = out@;
                        out.push(v);
                        proof {
                            assert(out@ =~= pre + seq![v]);
                            assert forall|vs: Seq<u32>| true implies (pre + seq![v]) + vs =~= pre + (
                            seq![v] + vs) by {}
                        }
                        cur = j2;
                    },
                }
            } else {
                return None;
            }
        }
    }
    proof {
        if s@.skip(i as int).len() >= 1 {
            assert(s@.skip(i as int)[0] == s@[i as int]);
        }
    }
    None
}

/// Parse one `u32` value at position `i`.
fn p_u32_val(s: &Vec<char>, i: usize) -> (r: Option<(u32, usize)>)
    requires
        i <= s@.len(),
    ensures
        r matches Some((n, j)) ==> i <= j <= s@.len() && sp_u32_val(s@.skip(i as int)) == Some(
            (n, s@.skip(j as int)),
        ),
        r is None ==> sp_u32_val(s@.skip(i as int)) is None,
{
    match p_u64(s, i) {
        None => None,
        Some((n, j)) => if n <= u32::MAX as u64 {
            Some((n as u32, j))
        } else {
            None
        },
    }
}

/// Read a `u32`-array field at position `i`.
pub fn pf_u32_arr(s: &Vec<char>, i: usize, k: &str) -> (r: Option<(Vec<u32>, usize)>)
    requires
        i <= s@.len(),
    ensures
        r matches Some((v, j)) ==> i <= j <= s@.len() && sp_key_u32_arr(s@.skip(i as int), k@)
            == Some((v@, s@.skip(j as int))),
        r is None ==> sp_key_u32_arr(s@.skip(i as int), k@) is None,
{
    match p_lit(s, i, k) {
        None => None,
        Some(j1) => p_u32_arr(s, j1),
    }
}

/// Read an optional `u32`-array field at position `i`.
pub fn pf_opt_u32_arr(s: &Vec<char>, i: usize, k: &str) -> (r: Option<(Option<Vec<u32>>, usize)>)
    requires
        i <= s@.len(),
    ensures
        r matches Some((v, j)) ==> i <= j <= s@.len() && sp_key_opt_u32_arr(
            s@.skip(i as int),
            k@,
        ) == Some((v.deep_view(), s@.skip(j as int))),
        r is None ==> sp_key_opt_u32_arr(s@.skip(i as int), k@) is None,
{
    match p_lit(s, i, k) {
        None => None,
        Some(j1) => {
            if j1 < s.len() && s[j1] == '[' {
                proof {
                    assert(s@.skip(j1 as int)[0] == '[');
                }
                match p_u32_arr(s, j1) {
                    None => None,
                    Some((v, j2)) => {
                        proof {
                            assert(Some(v).deep_view() =~= Some(v@));
                        }
                        Some((Some(v), j2))
                    },
                }
            } else {
                proof {
                    if s@.skip(j1 as int).len() >= 1 {
                        assert(s@.skip(j1 as int)[0] == s@[j1 as int]);
                    }
                }
                match p_lit(s, j1, "null") {
                    None => None,
                    Some(j2) => Some((None, j2)),
                }
            }
        },
    }
}

// ---------------------------------------------------------------------------
// Executable field printers
// ---------------------------------------------------------------------------

/// One-character literals that frame values.
pub proof fn lemma_quote_lit()
    ensures
        "\""@ == seq!['"'],
{
    reveal_strlit("\"");
    assert("\""@ =~= seq!['"']);
}

pub proof fn lemma_rbrace_lit()
    ensures
        "}"@ == seq!['}'],
        !is_digit("}"@[0]),
{
    reveal_strlit("}");
    assert("}"@ =~= seq!['}']);
}

/// Append one string field: key, escaped value, closing quote.
pub fn push_str_field(out: &mut Vec<char>, k: &str, v: &str)
    ensures
        final(out)@ == old(out)@ + enc_str_field(k@, v@),
{
    push_lit(out, k);
    push_escaped(out, v);
    push_lit(out, "\"");
    proof {
        lemma_quote_lit();
        assert(out@ =~= old(out)@ + enc_str_field(k@, v@));
    }
}

/// Append one `u64` field: key and decimal value.
pub fn push_u64_field(out: &mut Vec<char>, k: &str, n: u64)
    ensures
        final(out)@ == old(out)@ + enc_u64_field(k@, n),
{
    push_lit(out, k);
    push_u64(out, n);
    proof {
        assert(out@ =~= old(out)@ + enc_u64_field(k@, n));
    }
}

/// Append one `u32` field: key and decimal value.
pub fn push_u32_field(out: &mut Vec<char>, k: &str, n: u32)
    ensures
        final(out)@ == old(out)@ + enc_u32_field(k@, n),
{
    push_lit(out, k);
    push_u64(out, n as u64);
    proof {
        assert(out@ =~= old(out)@ + enc_u32_field(k@, n));
    }
}

/// Append one optional string field: key, then a quoted string or `null`.
pub fn push_opt_str_field(out: &mut Vec<char>, k: &str, v: &Option<String>)
    ensures
        final(out)@ == old(out)@ + enc_opt_str_field(k@, v.deep_view()),
{
    push_lit(out, k);
    match v {
        Some(t) => {
            push_lit(out, "\"");
            push_escaped(out, t.as_str());
            push_lit(out, "\"");
            proof {
                lemma_quote_lit();
                assert(out@ =~= old(out)@ + enc_opt_str_field(k@, v.deep_view()));
            }
        },
        None => {
            push_lit(out, "null");
            proof {
                assert(out@ =~= old(out)@ + enc_opt_str_field(k@, v.deep_view()));
            }
        },
    }
}

/// Append a whole string array.
pub fn push_str_arr(out: &mut Vec<char>, vs: &Vec<String>)
    ensures
        final(out)@ == old(out)@ + enc_str_arr(vs.deep_view()),
{
    if vs.len() == 0 {
        push_lit(out, "[]");
        proof {
            reveal_strlit("[]");
            assert("[]"@ =~= seq!['[', ']']);
            assert(out@ =~= old(out)@ + enc_str_arr(vs.deep_view()));
        }
        return ;
    }
    push_lit(out, "[");
    push_lit(out, "\"");
    push_escaped(out, vs[0].as_str());
    push_lit(out, "\"");
    let mut k: usize = 1;
    proof {
        reveal_strlit("[");
        assert("["@ =~= seq!['[']);
        lemma_quote_lit();
        assert(out@ + enc_str_arr_rest(vs.deep_view().skip(1)) =~= old(out)@ + enc_str_arr(
            vs.deep_view(),
        ));
    }
    while k < vs.len()
        invariant
            1 <= k <= vs@.len(),
            out@ + enc_str_arr_rest(vs.deep_view().skip(k as int)) == old(out)@ + enc_str_arr(
                vs.deep_view(),
            ),
        decreases vs@.len() - k,
    {
        push_lit(out, ",");
        push_lit(out, "\"");
        push_escaped(out, vs[k].as_str());
        push_lit(out, "\"");
        proof {
            reveal_strlit(",");
            assert(","@ =~= seq![',']);
            lemma_quote_lit();
            let tailk = vs.deep_view().skip(k as int);
            assert(tailk[0] == vs.deep_view()[k as int]);
            assert(tailk.skip(1) =~= vs.deep_view().skip(k + 1));
            assert(out@ + enc_str_arr_rest(vs.deep_view().skip(k + 1)) =~= old(out)@
                + enc_str_arr(vs.deep_view()));
        }
        k += 1;
    }
    push_lit(out, "]");
    proof {
        reveal_strlit("]");
        assert("]"@ =~= seq![']']);
        assert(vs.deep_view().skip(k as int).len() == 0);
        assert(vs.deep_view().skip(k as int) =~= Seq::<Seq<char>>::empty());
        assert(enc_str_arr_rest(vs.deep_view().skip(k as int)) == seq![']']);
        assert(out@ =~= old(out)@ + enc_str_arr(vs.deep_view()));
    }
}

/// Append one string-array field.
pub fn push_str_arr_field(out: &mut Vec<char>, k: &str, vs: &Vec<String>)
    ensures
        final(out)@ == old(out)@ + enc_str_arr_field(k@, vs.deep_view()),
{
    push_lit(out, k);
    push_str_arr(out, vs);
    proof {
        assert(out@ =~= old(out)@ + enc_str_arr_field(k@, vs.deep_view()));
    }
}

/// Append a whole `u32` array.
pub fn push_u32_arr(out: &mut Vec<char>, vs: &Vec<u32>)
    ensures
        final(out)@ == old(out)@ + enc_u32_arr(vs@),
{
    if vs.len() == 0 {
        push_lit(out, "[]");
        proof {
            reveal_strlit("[]");
            assert("[]"@ =~= seq!['[', ']']);
            assert(out@ =~= old(out)@ + enc_u32_arr(vs@));
        }
        return ;
    }
    push_lit(out, "[");
    push_u64(out, vs[0] as u64);
    let mut k: usize = 1;
    proof {
        reveal_strlit("[");
        assert("["@ =~= seq!['[']);
        assert(out@ + enc_u32_arr_rest(vs@.skip(1)) =~= old(out)@ + enc_u32_arr(vs@));
    }
    while k < vs.len()
        invariant
            1 <= k <= vs@.len(),
            out@ + enc_u32_arr_rest(vs@.skip(k as int)) == old(out)@ + enc_u32_arr(vs@),
        decreases vs@.len() - k,
    {
        push_lit(out, ",");
        push_u64(out, vs[k] as u64);
        proof {
            reveal_strlit(",");
            assert(","@ =~= seq![',']);
            let tailk = vs@.skip(k as int);
            assert(tailk[0] == vs@[k as int]);
            assert(tailk.skip(1) =~= vs@.skip(k + 1));
            assert(out@ + enc_u32_arr_rest(vs@.skip(k + 1)) =~= old(out)@ + enc_u32_arr(vs@));
        }
        k += 1;
    }
    push_lit(out, "]");
    proof {
        reveal_strlit("]");
        assert("]"@ =~= seq![']']);
        assert(vs@.skip(k as int) =~= Seq::<u32>::empty());
        assert(enc_u32_arr_rest(vs@.skip(k as int)) == seq![']']);
        assert(out@ =~= old(out)@ + enc_u32_arr(vs@));
    }
}

/// Append one `u32`-array field.
pub fn push_u32_arr_field(out: &mut Vec<char>, k: &str, vs: &Vec<u32>)
    ensures
        final(out)@ == old(out)@ + enc_u32_arr_field(k@, vs@),
{
    push_lit(out, k);
    push_u32_arr(out, vs);
    proof {
        assert(out@ =~= old(out)@ + enc_u32_arr_field(k@, vs@));
    }
}

/// Append one optional `u32`-array field.
pub fn push_opt_u32_arr_field(out: &mut Vec<char>, k: &str, v: &Option<Vec<u32>>)
    ensures
        final(out)@ == old(out)@ + enc_opt_u32_arr_field(k@, v.deep_view()),
{
    push_lit(out, k);
    match v {
        Some(vs) => {
            push_u32_arr(out, vs);
            proof {
                assert(Some(vs)@.deep_view() =~= Some(vs@));
                assert(out@ =~= old(out)@ + enc_opt_u32_arr_field(k@, v.deep_view()));
            }
        },
        None => {
            push_lit(out, "null");
            proof {
                assert(out@ =~= old(out)@ + enc_opt_u32_arr_field(k@, v.deep_view()));
            }
        },
    }
}

} // verus!
