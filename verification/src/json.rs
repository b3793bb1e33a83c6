//! The serialized form of the persisted records.
//!
//! Records are stored as compact JSON objects.  The grammar is defined by
//! spec-level parsing functions over character sequences; the executable
//! encoder and parser are verified against them, and the parser accepts a
//! text exactly when the spec parser does.  Strings escape `"` and `\` with
//! a backslash; numbers are canonical decimals without leading zeroes.

use vstd::prelude::*;
use vstd::string::StringExecFns;
use vstd::string::StrSliceExecFns;
use crate::text::{char_of_digit, chars_of, dec_chars, digit_val, is_digit_char, push_char};

verus! {

// ---------------------------------------------------------------------------
// Spec-level grammar
// ---------------------------------------------------------------------------

/// Consuming a fixed literal: succeeds exactly when `lit` is a prefix of `s`.
pub open spec fn sp_lit(s: Seq<char>, lit: Seq<char>) -> Option<int> {
    if lit.len() <= s.len() && s.take(lit.len() as int) == lit {
        Some(lit.len() as int)
    } else {
        None
    }
}

/// One escaped character of a string body.
pub open spec fn escape_char(c: char) -> Seq<char> {
    if c == '"' || c == '\\' {
        seq!['\\', c]
    } else {
        seq![c]
    }
}

/// The escaped form of a string body.
pub open spec fn escape_chars(s: Seq<char>) -> Seq<char>
    decreases s.len(),
{
    if s.len() == 0 {
        Seq::empty()
    } else {
        escape_char(s[0]) + escape_chars(s.drop_first())
    }
}

/// A quoted, escaped JSON string.
pub open spec fn enc_string_chars(v: Seq<char>) -> Seq<char> {
    seq!['"'] + escape_chars(v) + seq!['"']
}

/// Parses a string body up to and including the closing quote; returns the
/// unescaped value and the count of characters consumed.
pub open spec fn sp_str_body(s: Seq<char>) -> Option<(Seq<char>, int)>
    decreases s.len(),
{
    if s.len() == 0 {
        None
    } else if s[0] == '"' {
        Some((Seq::empty(), 1))
    } else if s[0] == '\\' {
        if s.len() >= 2 && (s[1] == '"' || s[1] == '\\') {
            match sp_str_body(s.skip(2)) {
                Some(vk) => Some((seq![s[1]] + vk.0, vk.1 + 2)),
                None => None,
            }
        } else {
            None
        }
    } else {
        match sp_str_body(s.skip(1)) {
            Some(vk) => Some((seq![s[0]] + vk.0, vk.1 + 1)),
            None => None,
        }
    }
}

/// Parses a quoted string, both quotes included in the consumed count.
pub open spec fn sp_string(s: Seq<char>) -> Option<(Seq<char>, int)> {
    if s.len() > 0 && s[0] == '"' {
        match sp_str_body(s.skip(1)) {
            Some(vk) => Some((vk.0, vk.1 + 1)),
            None => None,
        }
    } else {
        None
    }
}

/// The count of leading decimal digits.
pub open spec fn digit_run(s: Seq<char>) -> int
    decreases s.len(),
{
    if s.len() > 0 && is_digit_char(s[0]) {
        1 + digit_run(s.drop_first())
    } else {
        0
    }
}

/// The value of a sequence of decimal digits, most significant first.
pub open spec fn digits_val(ds: Seq<char>) -> nat
    decreases ds.len(),
{
    if ds.len() == 0 {
        0
    } else {
        digits_val(ds.drop_last()) * 10 + digit_val(ds.last())
    }
}

/// Parses a canonical decimal number: at least one digit, and a number other
/// than zero does not start with a zero digit.
pub open spec fn sp_number(s: Seq<char>) -> Option<(nat, int)> {
    if s.len() == 0 || !is_digit_char(s[0]) {
        None
    } else if s[0] == '0' {
        Some((0, 1))
    } else {
        Some((digits_val(s.take(digit_run(s))), digit_run(s)))
    }
}

/// Parses a JSON boolean literal.
pub open spec fn sp_bool(s: Seq<char>) -> Option<(bool, int)> {
    match sp_lit(s, "true"@) {
        Some(k) => Some((true, k)),
        None => match sp_lit(s, "false"@) {
            Some(k) => Some((false, k)),
            None => None,
        },
    }
}

/// Parses a key literal followed by a quoted string value.
pub open spec fn sp_key_string(s: Seq<char>, key: Seq<char>) -> Option<(Seq<char>, int)> {
    match sp_lit(s, key) {
        Some(k1) => match sp_string(s.skip(k1)) {
            Some(vk) => Some((vk.0, k1 + vk.1)),
            None => None,
        },
        None => None,
    }
}

// ---------------------------------------------------------------------------
// Sequence helpers
// ---------------------------------------------------------------------------

pub proof fn lemma_skip_skip<A>(s: Seq<A>, a: int, b: int)
    requires
        0 <= a,
        0 <= b,
        a + b <= s.len(),
    ensures
        s.skip(a).skip(b) == s.skip(a + b),
{
    assert(s.skip(a).skip(b) =~= s.skip(a + b));
}

pub proof fn lemma_skip_of_concat<A>(a: Seq<A>, b: Seq<A>)
    ensures
        (a + b).skip(a.len() as int) == b,
{
    assert((a + b).skip(a.len() as int) =~= b);
}

pub proof fn lemma_concat_assoc<A>(a: Seq<A>, b: Seq<A>, c: Seq<A>)
    ensures
        (a + b) + c == a + (b + c),
{
    assert((a + b) + c =~= a + (b + c));
}

// ---------------------------------------------------------------------------
// Inverse lemmas: parsing an encoding yields the encoded value
// ---------------------------------------------------------------------------

pub proof fn lemma_sp_lit_of_concat(lit: Seq<char>, rest: Seq<char>)
    ensures
        sp_lit(lit + rest, lit) == Some(lit.len() as int),
{
    assert((lit + rest).take(lit.len() as int) =~= lit);
}

pub proof fn lemma_sp_str_body_escape(v: Seq<char>, rest: Seq<char>)
    ensures
        sp_str_body(escape_chars(v) + seq!['"'] + rest) == Some::<(Seq<char>, int)>(
            (v, escape_chars(v).len() as int + 1),
        ),
    decreases v.len(),
{
    let s = escape_chars(v) + seq!['"'] + rest;
    if v.len() == 0 {
        assert(s[0] == '"');
        assert(sp_str_body(s) == Some::<(Seq<char>, int)>((Seq::empty(), 1)));
        assert(v =~= Seq::<char>::empty());
    } else {
        let c = v[0];
        let v1 = v.drop_first();
        lemma_sp_str_body_escape(v1, rest);
        let s1 = escape_chars(v1) + seq!['"'] + rest;
        if c == '"' || c == '\\' {
            assert(escape_chars(v) =~= seq!['\\', c] + escape_chars(v1));
            assert(s =~= seq!['\\', c] + s1);
            assert(s[0] == '\\');
            assert(s[1] == c);
            assert(s.skip(2) =~= s1);
            assert(seq![c] + v1 =~= v);
            assert(sp_str_body(s) == Some::<(Seq<char>, int)>((v, escape_chars(v).len() as int + 1)));
        } else {
            assert(escape_chars(v) =~= seq![c] + escape_chars(v1));
            assert(s =~= seq![c] + s1);
            assert(s[0] == c);
            assert(s.skip(1) =~= s1);
            assert(seq![c] + v1 =~= v);
            assert(sp_str_body(s) == Some::<(Seq<char>, int)>((v, escape_chars(v).len() as int + 1)));
        }
    }
}

pub proof fn lemma_sp_string_enc(v: Seq<char>, rest: Seq<char>)
    ensures
        sp_string(enc_string_chars(v) + rest) == Some::<(Seq<char>, int)>(
            (v, enc_string_chars(v).len() as int),
        ),
{
    let s = enc_string_chars(v) + rest;
    assert(s[0] == '"');
    assert(s.skip(1) =~= escape_chars(v) + seq!['"'] + rest);
    lemma_sp_str_body_escape(v, rest);
}

pub proof fn lemma_digit_run_bounds(s: Seq<char>)
    ensures
        0 <= digit_run(s) <= s.len(),
        forall|j: int| 0 <= j < digit_run(s) ==> is_digit_char(s[j]),
        digit_run(s) < s.len() ==> !is_digit_char(s[digit_run(s)]),
    decreases s.len(),
{
    if s.len() > 0 && is_digit_char(s[0]) {
        lemma_digit_run_bounds(s.drop_first());
        assert forall|j: int| 0 <= j < digit_run(s) implies is_digit_char(s[j]) by {
            if j > 0 {
                assert(s[j] == s.drop_first()[j - 1]);
            }
        }
        if digit_run(s) < s.len() {
            assert(s[digit_run(s)] == s.drop_first()[digit_run(s) - 1]);
        }
    }
}

pub proof fn lemma_digit_run_exact(s: Seq<char>, m: int)
    requires
        0 <= m <= s.len(),
        forall|j: int| 0 <= j < m ==> is_digit_char(s[j]),
        m < s.len() ==> !is_digit_char(s[m]),
    ensures
        digit_run(s) == m,
    decreases s.len(),
{
    if s.len() > 0 && is_digit_char(s[0]) {
        assert(m >= 1);
        lemma_digit_run_exact(s.drop_first(), m - 1);
    } else {
        assert(m == 0);
    }
}

pub proof fn lemma_digits_val_push(ds: Seq<char>, c: char)
    ensures
        digits_val(ds.push(c)) == digits_val(ds) * 10 + digit_val(c),
{
    assert(ds.push(c).drop_last() =~= ds);
    assert(ds.push(c).last() == c);
}

pub proof fn lemma_digits_val_dec(n: nat)
    ensures
        digits_val(dec_chars(n)) == n,
    decreases n,
{
    if n < 10 {
        let ds = dec_chars(n);
        assert(ds =~= Seq::empty().push(char_of_digit(n)));
        lemma_digits_val_push(Seq::empty(), char_of_digit(n));
        assert(char_of_digit(n) as int == 48 + n);
        assert(digit_val(char_of_digit(n)) == n);
    } else {
        lemma_digits_val_dec(n / 10);
        lemma_digits_val_push(dec_chars(n / 10), char_of_digit(n % 10));
        assert(char_of_digit(n % 10) as int == 48 + n % 10);
        assert(digit_val(char_of_digit(n % 10)) == n % 10);
    }
}

/// The value of a longer digit prefix is at least the value of a shorter one.
pub proof fn lemma_digits_val_take_monotone(s: Seq<char>, a: int, b: int)
    requires
        0 <= a <= b <= s.len(),
    ensures
        digits_val(s.take(a)) <= digits_val(s.take(b)),
    decreases b - a,
{
    if a < b {
        lemma_digits_val_take_monotone(s, a, b - 1);
        assert(s.take(b).drop_last() =~= s.take(b - 1));
        let prev = digits_val(s.take(b - 1));
        assert(digits_val(s.take(b)) == prev * 10 + digit_val(s.take(b).last()));
        assert(prev * 10 >= prev);
    }
}

pub proof fn lemma_sp_number_dec(n: nat, rest: Seq<char>)
    requires
        rest.len() == 0 || !is_digit_char(rest[0]),
    ensures
        sp_number(dec_chars(n) + rest) == Some::<(nat, int)>((n, dec_chars(n).len() as int)),
{
    let d = dec_chars(n);
    let s = d + rest;
    crate::text::lemma_dec_chars_digits(n);
    assert(s[0] == d[0]);
    assert(is_digit_char(s[0]));
    assert forall|j: int| 0 <= j < d.len() implies is_digit_char(s[j]) by {
        assert(s[j] == d[j]);
    }
    if (d.len() as int) < s.len() {
        assert(s[d.len() as int] == rest[0]);
    }
    lemma_digit_run_exact(s, d.len() as int);
    if n == 0 {
        assert(d[0] == char_of_digit(0));
        assert(char_of_digit(0) as int == 48);
        assert(s[0] == '0');
    } else {
        assert(s[0] != '0');
        assert(s.take(d.len() as int) =~= d);
        lemma_digits_val_dec(n);
    }
}

pub proof fn lemma_sp_key_string_enc(key: Seq<char>, v: Seq<char>, rest: Seq<char>)
    ensures
        sp_key_string(key + enc_string_chars(v) + rest, key) == Some::<(Seq<char>, int)>(
            (v, key.len() as int + enc_string_chars(v).len() as int),
        ),
{
    let s = key + enc_string_chars(v) + rest;
    assert(s =~= key + (enc_string_chars(v) + rest));
    lemma_sp_lit_of_concat(key, enc_string_chars(v) + rest);
    lemma_skip_of_concat(key, enc_string_chars(v) + rest);
    lemma_sp_string_enc(v, rest);
}

// ---------------------------------------------------------------------------
// Executable parsing cursors
// ---------------------------------------------------------------------------

fn is_digit(c: char) -> (r: bool)
    ensures
        r == is_digit_char(c),
{
    '0' <= c && c <= '9'
}

/// Consumes the literal `lit` at `pos`, returning the position after it.
pub fn p_lit(cs: &Vec<char>, pos: usize, lit: &str) -> (r: Option<usize>)
    requires
        pos <= cs@.len(),
    ensures
        match r {
            Some(p2) => {
                &&& sp_lit(cs@.skip(pos as int), lit@) == Some((p2 - pos) as int)
                &&& pos <= p2 <= cs@.len()
            },
            None => sp_lit(cs@.skip(pos as int), lit@) is None,
        },
{
    let s_len = cs.len();
    let n = lit.unicode_len();
    if n > s_len - pos {
        return None;
    }
    let mut j: usize = 0;
    while j < n
        invariant
            pos + n <= cs@.len(),
            cs@.len() <= usize::MAX,
            n == lit@.len(),
            j <= n,
            forall|k: int| 0 <= k < j ==> cs@[pos + k] == lit@[k],
        decreases n - j,
    {
        if cs[pos + j] != lit.get_char(j) {
            proof {
                let suf = cs@.skip(pos as int);
                assert(suf.take(n as int)[j as int] == cs@[pos + j]);
                assert(suf.take(n as int) != lit@);
            }
            return None;
        }
        j = j + 1;
    }
    proof {
        let suf = cs@.skip(pos as int);
        assert(suf.take(n as int) =~= lit@);
    }
    Some(pos + n)
}

/// Parses a string body up to and including the closing quote.
fn p_str_body(cs: &Vec<char>, pos: usize) -> (r: Option<(String, usize)>)
    requires
        pos <= cs@.len(),
    ensures
        match r {
            Some(vp) => {
                &&& sp_str_body(cs@.skip(pos as int)) == Some((vp.0@, (vp.1 - pos) as int))
                &&& pos < vp.1 <= cs@.len()
            },
            None => sp_str_body(cs@.skip(pos as int)) is None,
        },
    decreases cs@.len() - pos,
{
    let ghost s = cs@.skip(pos as int);
    if pos >= cs.len() {
        return None;
    }
    proof {
        assert(s[0] == cs@[pos as int]);
    }
    let c = cs[pos];
    if c == '"' {
        let out = String::new();
        proof {
            assert(out@ =~= Seq::<char>::empty());
        }
        Some((out, pos + 1))
    } else if c == '\\' {
        if pos + 1 < cs.len() && (cs[pos + 1] == '"' || cs[pos + 1] == '\\') {
            proof {
                assert(s[1] == cs@[pos + 1]);
            }
            let e = cs[pos + 1];
            match p_str_body(cs, pos + 2) {
                Some(vp) => {
                    let (v, p2) = vp;
                    let mut out = String::new();
                    push_char(&mut out, e);
                    out.append(v.as_str());
                    proof {
                        lemma_skip_skip(cs@, pos as int, 2);
                        assert(out@ =~= seq![s[1]] + v@);
                    }
                    Some((out, p2))
                },
                None => {
                    proof {
                        lemma_skip_skip(cs@, pos as int, 2);
                    }
                    None
                },
            }
        } else {
            proof {
                if pos + 1 < cs@.len() {
                    assert(s[1] == cs@[pos + 1]);
                }
            }
            None
        }
    } else {
        match p_str_body(cs, pos + 1) {
            Some(vp) => {
                let (v, p2) = vp;
                let mut out = String::new();
                push_char(&mut out, c);
                out.append(v.as_str());
                proof {
                    lemma_skip_skip(cs@, pos as int, 1);
                    assert(out@ =~= seq![s[0]] + v@);
                }
                Some((out, p2))
            },
            None => {
                proof {
                    lemma_skip_skip(cs@, pos as int, 1);
                }
                None
            },
        }
    }
}

/// Parses a quoted string at `pos`.
pub fn p_string(cs: &Vec<char>, pos: usize) -> (r: Option<(String, usize)>)
    requires
        pos <= cs@.len(),
    ensures
        match r {
            Some(vp) => {
                &&& sp_string(cs@.skip(pos as int)) == Some((vp.0@, (vp.1 - pos) as int))
                &&& pos < vp.1 <= cs@.len()
            },
            None => sp_string(cs@.skip(pos as int)) is None,
        },
{
    let ghost s = cs@.skip(pos as int);
    if pos >= cs.len() {
        return None;
    }
    proof {
        assert(s[0] == cs@[pos as int]);
    }
    if cs[pos] != '"' {
        return None;
    }
    proof {
        lemma_skip_skip(cs@, pos as int, 1);
    }
    match p_str_body(cs, pos + 1) {
        Some(vp) => Some((vp.0, vp.1)),
        None => None,
    }
}

/// Parses a key literal followed by a quoted string value.
pub fn p_key_string(cs: &Vec<char>, pos: usize, key: &str) -> (r: Option<(String, usize)>)
    requires
        pos <= cs@.len(),
    ensures
        match r {
            Some(vp) => {
                &&& sp_key_string(cs@.skip(pos as int), key@) == Some((vp.0@, (vp.1 - pos) as int))
                &&& pos < vp.1 <= cs@.len()
            },
            None => sp_key_string(cs@.skip(pos as int), key@) is None,
        },
{
    match p_lit(cs, pos, key) {
        Some(p1) => {
            proof {
                lemma_skip_skip(cs@, pos as int, (p1 - pos) as int);
            }
            match p_string(cs, p1) {
                Some(vp) => Some((vp.0, vp.1)),
                None => None,
            }
        },
        None => None,
    }
}

/// Parses a canonical decimal number that fits in a `u32`.
pub fn p_number_u32(cs: &Vec<char>, pos: usize) -> (r: Option<(u32, usize)>)
    requires
        pos <= cs@.len(),
    ensures
        match r {
            Some(vp) => {
                &&& sp_number(cs@.skip(pos as int)) == Some((vp.0 as nat, (vp.1 - pos) as int))
                &&& pos < vp.1 <= cs@.len()
            },
            None => sp_number(cs@.skip(pos as int)) is None || (sp_number(cs@.skip(pos as int))
                matches Some(vk) && vk.0 > u32::MAX),
        },
{
    let ghost s = cs@.skip(pos as int);
    if pos >= cs.len() {
        return None;
    }
    proof {
        assert(s[0] == cs@[pos as int]);
    }
    let c0 = cs[pos];
    if !is_digit(c0) {
        return None;
    }
    if c0 == '0' {
        return Some((0, pos + 1));
    }
    proof {
        lemma_digit_run_bounds(s);
    }
    let mut i: usize = pos;
    let mut acc: u64 = 0;
    while i < cs.len() && is_digit(cs[i])
        invariant
            pos <= i <= cs@.len(),
            pos < cs@.len(),
            s == cs@.skip(pos as int),
            s.len() == cs@.len() - pos,
            forall|j: int| 0 <= j < i - pos ==> is_digit_char(s[j]),
            acc as nat == digits_val(s.take(i - pos)),
            acc <= 0xFFFF_FFFFu64 * 10 + 9,
            is_digit_char(s[0]) && s[0] != '0',
            0 <= digit_run(s) <= s.len(),
            forall|j: int| 0 <= j < digit_run(s) ==> is_digit_char(s[j]),
            digit_run(s) < s.len() ==> !is_digit_char(s[digit_run(s)]),
        decreases cs@.len() - i,
    {
        if acc > 0xFFFF_FFFF {
            proof {
                lemma_digits_val_take_monotone(s, i - pos, digit_run(s));
                assert(i - pos <= digit_run(s)) by {
                    if (i - pos) > digit_run(s) {
                        assert(is_digit_char(s[digit_run(s)]));
                    }
                }
            }
            return None;
        }
        proof {
            assert(s[i - pos] == cs@[i as int]);
            assert(s.take(i - pos + 1).drop_last() =~= s.take(i - pos));
            assert(s.take(i - pos + 1).last() == s[i - pos]);
        }
        let d = (cs[i] as u32) - 48;
        proof {
            assert(is_digit_char(s[i - pos]));
            assert(48 <= cs@[i as int] as int <= 57);
            assert(d as nat == digit_val(s[i - pos]));
        }
        acc = acc * 10 + (d as u64);
        i = i + 1;
    }
    proof {
        if (i - pos) < s.len() {
            assert(s[i - pos] == cs@[i as int]);
        }
        lemma_digit_run_exact(s, i - pos);
        assert(i > pos) by {
            if i == pos {
                assert(is_digit_char(cs@[pos as int]));
            }
        }
    }
    if acc > 0xFFFF_FFFF {
        return None;
    }
    proof {
        assert(s.take(digit_run(s)) == s.take(i - pos));
    }
    Some((acc as u32, i))
}

/// Parses a JSON boolean literal.
pub fn p_bool(cs: &Vec<char>, pos: usize) -> (r: Option<(bool, usize)>)
    requires
        pos <= cs@.len(),
    ensures
        match r {
            Some(vp) => {
                &&& sp_bool(cs@.skip(pos as int)) == Some((vp.0, (vp.1 - pos) as int))
                &&& pos <= vp.1 <= cs@.len()
            },
            None => sp_bool(cs@.skip(pos as int)) is None,
        },
{
    match p_lit(cs, pos, "true") {
        Some(p2) => Some((true, p2)),
        None => match p_lit(cs, pos, "false") {
            Some(p2) => Some((false, p2)),
            None => None,
        },
    }
}

// ---------------------------------------------------------------------------
// Executable encoding
// ---------------------------------------------------------------------------

pub proof fn lemma_escape_push(s: Seq<char>, c: char)
    ensures
        escape_chars(s.push(c)) == escape_chars(s) + escape_char(c),
    decreases s.len(),
{
    if s.len() == 0 {
        assert(s.push(c)[0] == c);
        assert(s.push(c).drop_first() =~= Seq::<char>::empty());
        assert(escape_chars(Seq::<char>::empty()) =~= Seq::<char>::empty());
        assert(escape_chars(s.push(c)) =~= escape_char(c));
        assert(escape_chars(s) + escape_char(c) =~= escape_char(c));
    } else {
        lemma_escape_push(s.drop_first(), c);
        assert(s.push(c)[0] == s[0]);
        assert(s.push(c).drop_first() =~= s.drop_first().push(c));
        assert(escape_chars(s.push(c)) =~= escape_chars(s) + escape_char(c));
    }
}

/// Appends the quoted, escaped form of `v` to `out`.
pub fn push_json_string(out: &mut String, v: &str)
    ensures
        final(out)@ == old(out)@ + enc_string_chars(v@),
{
    push_char(out, '"');
    proof {
        assert(v@.take(0) =~= Seq::<char>::empty());
        assert(out@ =~= old(out)@ + seq!['"'] + escape_chars(v@.take(0)));
    }
    let n = v.unicode_len();
    let mut i: usize = 0;
    while i < n
        invariant
            n == v@.len(),
            i <= n,
            out@ == old(out)@ + seq!['"'] + escape_chars(v@.take(i as int)),
        decreases n - i,
    {
        let c = v.get_char(i);
        if c == '"' || c == '\\' {
            push_char(out, '\\');
            push_char(out, c);
        } else {
            push_char(out, c);
        }
        proof {
            lemma_escape_push(v@.take(i as int), v@[i as int]);
            assert(v@.take(i + 1) =~= v@.take(i as int).push(v@[i as int]));
            assert(out@ =~= old(out)@ + seq!['"'] + escape_chars(v@.take(i + 1)));
        }
        i = i + 1;
    }
    push_char(out, '"');
    proof {
        assert(v@.take(n as int) =~= v@);
        assert(out@ =~= old(out)@ + enc_string_chars(v@));
    }
}

/// Converts a string slice into its character vector for parsing.
pub fn parse_chars(s: &str) -> (r: Vec<char>)
    ensures
        r@ == s@,
{
    chars_of(s)
}

} // verus!
