//! Character-level text building blocks: quoting with quote doubling,
//! substring search, prefix tests, decimal rendering of integers, and
//! joining fragments with a separator.

use vstd::prelude::*;

verus! {

// ---------------------------------------------------------------------------
// Conversions between `str`/`String` and `Vec<char>`.
// ---------------------------------------------------------------------------

/// Relies on `Iterator::collect` for `Vec<char>`: yields the characters of
/// the string, in order.
#[verifier::external_body]
pub(crate) fn chars_of(s: &str) -> (r: Vec<char>)
    ensures
        r@ == s@,
{
    s.chars().collect()
}

/// Relies on `Iterator::collect` for `String`: yields the string made of
/// exactly these characters, in order.
#[verifier::external_body]
pub(crate) fn string_of_chars(cs: &Vec<char>) -> (r: String)
    ensures
        r@ == cs@,
{
    cs.iter().collect()
}

// ---------------------------------------------------------------------------
// Quoting: wrap in single quotes, doubling every embedded single quote.
// ---------------------------------------------------------------------------

/// A single quote is doubled; every other character stands unchanged.
pub open spec fn escaped_char(c: char) -> Seq<char> {
    if c == '\'' {
        seq!['\'', '\'']
    } else {
        seq![c]
    }
}

/// The text with every embedded single quote doubled.
pub open spec fn escaped(s: Seq<char>) -> Seq<char>
    decreases s.len(),
{
    if s.len() == 0 {
        Seq::empty()
    } else {
        escaped(s.drop_last()) + escaped_char(s.last())
    }
}

/// The text wrapped in single quotes, with every embedded single quote doubled.
pub open spec fn quoted(s: Seq<char>) -> Seq<char> {
    seq!['\''] + escaped(s) + seq!['\'']
}

/// Wraps the value in single quotes and doubles every embedded single quote,
/// so the result is a literal-safe fragment.
pub fn quote_escaped(s: &str) -> (r: String)
    ensures
        r@ == quoted(s@),
{
    let cs = chars_of(s);
    let mut out: Vec<char> = Vec::new();
    out.push('\'');
    let mut i: usize = 0;
    while i < cs.len()
        invariant
            i <= cs.len(),
            cs@ == s@,
            out@ == seq!['\''] + escaped(cs@.take(i as int)),
        decreases cs.len() - i,
    {
        let c = cs[i];
        if c == '\'' {
            out.push('\'');
            out.push('\'');
        } else {
            out.push(c);
        }
        proof {
            let t = cs@.take(i + 1);
            assert(t.drop_last() =~= cs@.take(i as int));
            assert(t.last() == cs@[i as int]);
        }
        i = i + 1;
    }
    out.push('\'');
    proof {
        assert(cs@.take(cs@.len() as int) =~= cs@);
        assert(out@ =~= quoted(s@));
    }
    string_of_chars(&out)
}

/// How many single quotes the text holds.
pub open spec fn quote_count(s: Seq<char>) -> nat
    decreases s.len(),
{
    if s.len() == 0 {
        0
    } else {
        quote_count(s.drop_last()) + (if s.last() == '\'' {
            1nat
        } else {
            0nat
        })
    }
}

proof fn lemma_quote_count_add(a: Seq<char>, b: Seq<char>)
    ensures
        quote_count(a + b) == quote_count(a) + quote_count(b),
    decreases b.len(),
{
    if b.len() == 0 {
        assert(a + b =~= a);
    } else {
        lemma_quote_count_add(a, b.drop_last());
        assert((a + b).drop_last() =~= a + b.drop_last());
        assert((a + b).last() == b.last());
    }
}

/// Escaping doubles exactly the single quotes and nothing else: the escaped
/// text holds twice as many quotes as the input, and is longer than the input
/// by exactly the input's quote count.
pub proof fn lemma_escaping_doubles_every_quote(s: Seq<char>)
    ensures
        quote_count(escaped(s)) == 2 * quote_count(s),
        escaped(s).len() == s.len() + quote_count(s),
    decreases s.len(),
{
    if s.len() > 0 {
        lemma_escaping_doubles_every_quote(s.drop_last());
        lemma_quote_count_add(escaped(s.drop_last()), escaped_char(s.last()));
        if s.last() == '\'' {
            let pair = escaped_char(s.last());
            assert(seq!['\''].drop_last() =~= Seq::<char>::empty());
            assert(quote_count(Seq::<char>::empty()) == 0);
            assert(quote_count(seq!['\'']) == 1);
            assert(pair.drop_last() =~= seq!['\'']);
            assert(quote_count(pair) == 2);
        } else {
            let single = escaped_char(s.last());
            assert(single.drop_last() =~= Seq::<char>::empty());
            assert(quote_count(Seq::<char>::empty()) == 0);
            assert(quote_count(single) == 0);
        }
    }
}

// ---------------------------------------------------------------------------
// Substring search and prefix tests.
// ---------------------------------------------------------------------------

/// The needle occurs in the haystack starting at position `i`.
pub open spec fn occurs_at(hay: Seq<char>, needle: Seq<char>, i: int) -> bool {
    0 <= i && i + needle.len() <= hay.len() && hay.subrange(i, i + needle.len()) == needle
}

/// The needle occurs somewhere in the haystack.
pub open spec fn contains_text(hay: Seq<char>, needle: Seq<char>) -> bool {
    exists|i: int| occurs_at(hay, needle, i)
}

/// The text begins with the given prefix.
pub open spec fn has_prefix(s: Seq<char>, p: Seq<char>) -> bool {
    p.len() <= s.len() && s.take(p.len() as int) == p
}

fn matches_at(hay: &Vec<char>, needle: &Vec<char>, i: usize) -> (r: bool)
    requires
        i + needle@.len() <= hay@.len(),
    ensures
        r == occurs_at(hay@, needle@, i as int),
{
    let hl = hay.len();
    let nl = needle.len();
    let mut j: usize = 0;
    while j < nl
        invariant
            j <= nl,
            nl == needle@.len(),
            hl == hay@.len(),
            i + nl <= hl,
            forall|k: int| 0 <= k < j ==> hay@[i + k] == needle@[k],
        decreases nl - j,
    {
        if hay[i + j] != needle[j] {
            proof {
                let sub = hay@.subrange(i as int, i + needle@.len());
                assert(sub[j as int] == hay@[i + j]);
            }
            return false;
        }
        j = j + 1;
    }
    proof {
        assert(hay@.subrange(i as int, i + needle@.len()) =~= needle@);
    }
    true
}

/// Substring search: reports whether the needle occurs in the haystack.
pub fn contains_chars(hay: &Vec<char>, needle: &Vec<char>) -> (r: bool)
    ensures
        r == contains_text(hay@, needle@),
{
    if needle.len() > hay.len() {
        proof {
            assert forall|i: int| !occurs_at(hay@, needle@, i) by {}
        }
        return false;
    }
    if needle.len() == 0 {
        proof {
            assert(hay@.subrange(0, 0) =~= needle@);
            assert(occurs_at(hay@, needle@, 0));
        }
        return true;
    }
    let hl = hay.len();
    let end = hl - needle.len();
    let mut i: usize = 0;
    while i <= end
        invariant
            i <= end + 1,
            hl == hay@.len(),
            end == hay@.len() - needle@.len(),
            0 < needle@.len() <= hay@.len(),
            forall|k: int| 0 <= k < i ==> !occurs_at(hay@, needle@, k),
        decreases end + 1 - i,
    {
        if matches_at(hay, needle, i) {
            return true;
        }
        i = i + 1;
    }
    proof {
        assert forall|k: int| !occurs_at(hay@, needle@, k) by {
            if 0 <= k <= end {
                assert(!occurs_at(hay@, needle@, k));
            }
        }
    }
    false
}

/// Prefix test over character vectors.
pub fn starts_with_chars(s: &Vec<char>, p: &Vec<char>) -> (r: bool)
    ensures
        r == has_prefix(s@, p@),
{
    if p.len() > s.len() {
        return false;
    }
    let r = matches_at(s, p, 0);
    proof {
        assert(s@.subrange(0, p@.len() as int) == s@.take(p@.len() as int));
    }
    r
}

/// Prefix test: reports whether the string begins with the given prefix.
pub fn string_has_prefix(s: &str, p: &str) -> (r: bool)
    ensures
        r == has_prefix(s@, p@),
{
    let sc = chars_of(s);
    let pc = chars_of(p);
    starts_with_chars(&sc, &pc)
}

/// Equality test over character views of two strings.
pub fn string_text_eq(a: &str, b: &str) -> (r: bool)
    ensures
        r == (a@ == b@),
{
    let ac = chars_of(a);
    let bc = chars_of(b);
    if ac.len() != bc.len() {
        return false;
    }
    let mut i: usize = 0;
    while i < ac.len()
        invariant
            i <= ac.len(),
            ac@ == a@,
            bc@ == b@,
            ac@.len() == bc@.len(),
            forall|k: int| 0 <= k < i ==> ac@[k] == bc@[k],
        decreases ac.len() - i,
    {
        if ac[i] != bc[i] {
            return false;
        }
        i = i + 1;
    }
    proof {
        assert(a@ =~= b@);
    }
    true
}

// ---------------------------------------------------------------------------
// Decimal rendering of integers.
// ---------------------------------------------------------------------------

/// The decimal digit character for a value below ten.
pub open spec fn dec_digit(n: int) -> char {
    if n == 0 {
        '0'
    } else if n == 1 {
        '1'
    } else if n == 2 {
        '2'
    } else if n == 3 {
        '3'
    } else if n == 4 {
        '4'
    } else if n == 5 {
        '5'
    } else if n == 6 {
        '6'
    } else if n == 7 {
        '7'
    } else if n == 8 {
        '8'
    } else {
        '9'
    }
}

/// The decimal digits of a natural number, most significant first, with no
/// leading zero except for the number zero itself.
pub open spec fn dec_rep(n: nat) -> Seq<char>
    decreases n,
{
    if n < 10 {
        seq![dec_digit(n as int)]
    } else {
        dec_rep(n / 10).push(dec_digit((n % 10) as int))
    }
}

/// The decimal rendering of an integer: a leading minus sign for a negative
/// value, then the digits of its magnitude.
pub open spec fn int_rep(n: int) -> Seq<char> {
    if n < 0 {
        seq!['-'] + dec_rep((-n) as nat)
    } else {
        dec_rep(n as nat)
    }
}

fn digit_char(d: u64) -> (c: char)
    requires
        d < 10,
    ensures
        c == dec_digit(d as int),
{
    if d == 0 {
        '0'
    } else if d == 1 {
        '1'
    } else if d == 2 {
        '2'
    } else if d == 3 {
        '3'
    } else if d == 4 {
        '4'
    } else if d == 5 {
        '5'
    } else if d == 6 {
        '6'
    } else if d == 7 {
        '7'
    } else if d == 8 {
        '8'
    } else {
        '9'
    }
}

fn push_dec(n: u64, out: &mut Vec<char>)
    ensures
        final(out)@ == old(out)@ + dec_rep(n as nat),
    decreases n,
{
    if n >= 10 {
        push_dec(n / 10, out);
        out.push(digit_char(n % 10));
        proof {
            assert(out@ =~= old(out)@ + dec_rep(n as nat));
        }
    } else {
        out.push(digit_char(n));
        proof {
            assert(out@ =~= old(out)@ + dec_rep(n as nat));
        }
    }
}

/// Renders an unsigned value in decimal.
pub fn u64_to_dec(n: u64) -> (r: String)
    ensures
        r@ == dec_rep(n as nat),
{
    let mut out: Vec<char> = Vec::new();
    push_dec(n, &mut out);
    proof {
        assert(out@ =~= dec_rep(n as nat));
    }
    string_of_chars(&out)
}

/// Renders a signed value in decimal, with a leading minus sign when negative.
pub fn i64_to_dec(n: i64) -> (r: String)
    ensures
        r@ == int_rep(n as int),
{
    let mut out: Vec<char> = Vec::new();
    if n < 0 {
        out.push('-');
        let wide: i128 = n as i128;
        let mag: u64 = (-wide) as u64;
        push_dec(mag, &mut out);
        proof {
            assert(out@ =~= int_rep(n as int));
        }
    } else {
        push_dec(n as u64, &mut out);
        proof {
            assert(out@ =~= int_rep(n as int));
        }
    }
    string_of_chars(&out)
}

/// Renders a 32-bit signed value in decimal.
pub fn i32_to_dec(n: i32) -> (r: String)
    ensures
        r@ == int_rep(n as int),
{
    i64_to_dec(n as i64)
}

// ---------------------------------------------------------------------------
// Joining fragments with a separator.
// ---------------------------------------------------------------------------

/// The fragments laid end to end, with the separator between neighbours.
pub open spec fn joined(parts: Seq<Seq<char>>, sep: Seq<char>) -> Seq<char>
    decreases parts.len(),
{
    if parts.len() == 0 {
        Seq::empty()
    } else if parts.len() == 1 {
        parts[0]
    } else {
        joined(parts.drop_last(), sep) + sep + parts.last()
    }
}

/// Joins the fragments with the separator between neighbours.
pub fn join_with(parts: &Vec<String>, sep: &str) -> (r: String)
    ensures
        r@ == joined(parts.deep_view(), sep@),
{
    let ghost dv = parts.deep_view();
    let mut r = String::new();
    let mut i: usize = 0;
    while i < parts.len()
        invariant
            i <= parts.len(),
            dv == parts.deep_view(),
            dv.len() == parts@.len(),
            forall|k: int| 0 <= k < parts@.len() ==> dv[k] == parts@[k]@,
            r@ == joined(dv.take(i as int), sep@),
        decreases parts.len() - i,
    {
        if i > 0 {
            r.append(sep);
        }
        r.append(parts[i].as_str());
        proof {
            let t = dv.take(i + 1);
            assert(t.drop_last() =~= dv.take(i as int));
            assert(t.last() == dv[i as int]);
            if i == 0 {
                assert(r@ =~= joined(t, sep@));
            }
        }
        i = i + 1;
    }
    proof {
        assert(dv.take(dv.len() as int) =~= dv);
    }
    r
}

} // verus!
