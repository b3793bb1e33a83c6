use vstd::prelude::*;
use vstd::string::StrSliceExecFns;

verus! {

/// Relies on `String::push`: appends exactly one character at the end.
#[verifier::external_body]
pub(crate) fn push_char(s: &mut String, c: char)
    ensures
        final(s)@ == old(s)@.push(c),
{
    s.push(c);
}

/// Copies the characters of a string slice into a vector, in order.
pub fn chars_of(s: &str) -> (r: Vec<char>)
    ensures
        r@ == s@,
{
    let n = s.unicode_len();
    let mut r: Vec<char> = Vec::new();
    let mut i: usize = 0;
    while i < n
        invariant
            n == s@.len(),
            i <= n,
            r@ == s@.take(i as int),
        decreases n - i,
    {
        r.push(s.get_char(i));
        i = i + 1;
        proof {
            assert(r@ =~= s@.take(i as int));
        }
    }
    proof {
        assert(r@ =~= s@);
    }
    r
}

/// Whether two string slices hold the same characters.
pub fn str_eq(a: &str, b: &str) -> (r: bool)
    ensures
        r == (a@ == b@),
{
    let na = a.unicode_len();
    let nb = b.unicode_len();
    if na != nb {
        proof {
            assert(a@ != b@);
        }
        return false;
    }
    let mut i: usize = 0;
    while i < na
        invariant
            na == a@.len(),
            na == b@.len(),
            i <= na,
            forall|j: int| 0 <= j < i ==> a@[j] == b@[j],
        decreases na - i,
    {
        if a.get_char(i) != b.get_char(i) {
            return false;
        }
        i = i + 1;
    }
    proof {
        assert(a@ =~= b@);
    }
    true
}

pub open spec fn is_digit_char(c: char) -> bool {
    '0' <= c && c <= '9'
}

pub open spec fn digit_val(c: char) -> nat {
    (c as nat - 48) as nat
}

pub open spec fn char_of_digit(d: nat) -> char {
    (48 + d) as char
}

/// The canonical decimal rendering of a natural number, most significant digit first.
pub open spec fn dec_chars(n: nat) -> Seq<char>
    decreases n,
{
    if n < 10 {
        seq![char_of_digit(n)]
    } else {
        dec_chars(n / 10).push(char_of_digit(n % 10))
    }
}

pub proof fn lemma_dec_chars_digits(n: nat)
    ensures
        dec_chars(n).len() >= 1,
        forall|i: int| 0 <= i < dec_chars(n).len() ==> is_digit_char(#[trigger] dec_chars(n)[i]),
        dec_chars(n)[0] == '0' <==> n == 0,
    decreases n,
{
    if n < 10 {
        assert(char_of_digit(n) as int == 48 + n);
    } else {
        lemma_dec_chars_digits(n / 10);
        assert(char_of_digit(n % 10) as int == 48 + n % 10);
        assert(dec_chars(n)[0] == dec_chars(n / 10)[0]);
    }
}

fn digit_to_char(d: u64) -> (c: char)
    requires
        d < 10,
    ensures
        c == char_of_digit(d as nat),
{
    let b: u8 = 48 + (d as u8);
    let c = b as char;
    proof {
        assert(c as int == 48 + d);
        assert(char_of_digit(d as nat) as int == 48 + d);
    }
    c
}

/// Appends the decimal rendering of `n` to `out`.
pub fn push_decimal(out: &mut String, n: u64)
    ensures
        final(out)@ == old(out)@ + dec_chars(n as nat),
    decreases n,
{
    if n >= 10 {
        push_decimal(out, n / 10);
    }
    let c = digit_to_char(n % 10);
    push_char(out, c);
    proof {
        if n < 10 {
            assert(final(out)@ =~= old(out)@ + dec_chars(n as nat));
        } else {
            assert(n as nat / 10 == (n / 10) as nat);
            assert(final(out)@ =~= old(out)@ + dec_chars(n as nat));
        }
    }
}

pub open spec fn is_space_char(c: char) -> bool {
    c == ' ' || c == '\t' || c == '\n' || c == '\r' || c == '\u{c}'
}

fn is_space(c: char) -> (r: bool)
    ensures
        r == is_space_char(c),
{
    c == ' ' || c == '\t' || c == '\n' || c == '\r' || c == '\u{c}'
}

pub open spec fn lower_char(c: char) -> char {
    if 'A' <= c && c <= 'Z' {
        (c as int + 32) as char
    } else {
        c
    }
}

/// ASCII-lowercases every character of a sequence.
pub open spec fn lower_chars(s: Seq<char>) -> Seq<char> {
    s.map_values(|c: char| lower_char(c))
}

fn to_lower(c: char) -> (r: char)
    ensures
        r == lower_char(c),
{
    if 'A' <= c && c <= 'Z' {
        let b = (c as u8) + 32;
        let r = b as char;
        proof {
            assert(r as int == c as int + 32);
        }
        r
    } else {
        c
    }
}

/// The sequence without its leading and trailing whitespace characters.
pub open spec fn trim_chars(s: Seq<char>) -> Seq<char>
    decreases s.len(),
{
    if s.len() > 0 && is_space_char(s[0]) {
        trim_chars(s.drop_first())
    } else if s.len() > 0 && is_space_char(s.last()) {
        trim_chars(s.drop_last())
    } else {
        s
    }
}

/// ASCII-trims and ASCII-lowercases a string, as a normalized form of operator input.
pub fn normalized(s: &str) -> (r: String)
    ensures
        r@ == lower_chars(trim_chars(s@)),
{
    let cs = chars_of(s);
    let n = cs.len();
    let mut start: usize = 0;
    while start < n && is_space(cs[start])
        invariant
            n == cs@.len(),
            start <= n,
            forall|j: int| 0 <= j < start ==> is_space_char(cs@[j]),
        decreases n - start,
    {
        start = start + 1;
    }
    let mut end: usize = n;
    while end > start && is_space(cs[end - 1])
        invariant
            n == cs@.len(),
            start <= end <= n,
            forall|j: int| 0 <= j < start ==> is_space_char(cs@[j]),
            forall|j: int| end <= j < n ==> is_space_char(cs@[j]),
        decreases end,
    {
        end = end - 1;
    }
    proof {
        lemma_trim_range(cs@, start as int, end as int);
    }
    let mut r = String::new();
    let mut i: usize = start;
    while i < end
        invariant
            start <= i <= end <= cs@.len(),
            r@ == lower_chars(cs@.subrange(start as int, i as int)),
        decreases end - i,
    {
        push_char(&mut r, to_lower(cs[i]));
        i = i + 1;
        proof {
            assert(r@ =~= lower_chars(cs@.subrange(start as int, i as int)));
        }
    }
    proof {
        assert(r@ =~= lower_chars(trim_chars(cs@)));
    }
    r
}

proof fn lemma_trim_range(s: Seq<char>, start: int, end: int)
    requires
        0 <= start <= end <= s.len(),
        forall|j: int| 0 <= j < start ==> is_space_char(s[j]),
        forall|j: int| end <= j < s.len() ==> is_space_char(s[j]),
        start < end ==> !is_space_char(s[start]) && !is_space_char(s[end - 1]),
    ensures
        trim_chars(s) == s.subrange(start, end),
    decreases s.len(),
{
    if s.len() > 0 && is_space_char(s[0]) {
        if start == end {
            lemma_trim_all_space(s);
            assert(s.subrange(start, end) =~= Seq::<char>::empty());
        } else {
            assert(start >= 1);
            lemma_trim_range(s.drop_first(), start - 1, end - 1);
            assert(s.drop_first().subrange(start - 1, end - 1) =~= s.subrange(start, end));
        }
    } else if s.len() > 0 && is_space_char(s.last()) {
        if start == end {
            lemma_trim_all_space(s);
            assert(s.subrange(start, end) =~= Seq::<char>::empty());
        } else {
            assert(end <= s.len() - 1);
            lemma_trim_range(s.drop_last(), start, end);
            assert(s.drop_last().subrange(start, end) =~= s.subrange(start, end));
        }
    } else {
        if s.len() == 0 {
            assert(trim_chars(s) =~= s.subrange(start, end));
        } else {
            assert(start == 0);
            assert(end == s.len());
            assert(trim_chars(s) =~= s.subrange(start, end));
        }
    }
}

proof fn lemma_trim_all_space(s: Seq<char>)
    requires
        forall|j: int| 0 <= j < s.len() ==> is_space_char(s[j]),
    ensures
        trim_chars(s) == Seq::<char>::empty(),
    decreases s.len(),
{
    if s.len() > 0 {
        lemma_trim_all_space(s.drop_first());
    } else {
        assert(trim_chars(s) =~= Seq::<char>::empty());
    }
}

} // verus!
