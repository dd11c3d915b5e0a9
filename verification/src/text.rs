//! Character-sequence utilities the engine is specified over: lexicographic
//! comparison (the order the backend's string fields are sorted by),
//! substring containment (the filter predicate), decimal rendering of ids
//! and counts, and case folding.

use vstd::prelude::*;

verus! {

// ---------------------------------------------------------------------------
// Lexicographic order on character sequences
// ---------------------------------------------------------------------------

/// `a` is less than or equal to `b` in lexicographic order by character
/// value, comparing from position `i` on (the first `i` characters are
/// assumed equal by the caller).
pub open spec fn lex_leq_from(a: Seq<char>, b: Seq<char>, i: int) -> bool
    decreases a.len() - i,
{
    if i >= a.len() {
        true
    } else if i >= b.len() {
        false
    } else if (a[i] as u32) < (b[i] as u32) {
        true
    } else if (a[i] as u32) > (b[i] as u32) {
        false
    } else {
        lex_leq_from(a, b, i + 1)
    }
}

/// Lexicographic order by character value; a proper prefix sorts first.
pub open spec fn lex_leq(a: Seq<char>, b: Seq<char>) -> bool {
    lex_leq_from(a, b, 0)
}

/// The lexicographic order is total: of any two sequences, one is less
/// than or equal to the other.
pub proof fn lemma_lex_total_from(a: Seq<char>, b: Seq<char>, i: int)
    ensures
        lex_leq_from(a, b, i) || lex_leq_from(b, a, i),
    decreases a.len() - i,
{
    if i >= a.len() || i >= b.len() {
    } else if (a[i] as u32) == (b[i] as u32) {
        lemma_lex_total_from(a, b, i + 1);
    }
}

/// The lexicographic order is transitive.
pub proof fn lemma_lex_trans_from(a: Seq<char>, b: Seq<char>, c: Seq<char>, i: int)
    requires
        lex_leq_from(a, b, i),
        lex_leq_from(b, c, i),
    ensures
        lex_leq_from(a, c, i),
    decreases a.len() - i,
{
    if i >= a.len() {
    } else if i < b.len() && i < c.len() && (a[i] as u32) == (b[i] as u32) && (b[i] as u32) == (
    c[i] as u32) {
        lemma_lex_trans_from(a, b, c, i + 1);
    }
}

pub proof fn lemma_lex_total(a: Seq<char>, b: Seq<char>)
    ensures
        lex_leq(a, b) || lex_leq(b, a),
{
    lemma_lex_total_from(a, b, 0);
}

pub proof fn lemma_lex_trans(a: Seq<char>, b: Seq<char>, c: Seq<char>)
    requires
        lex_leq(a, b),
        lex_leq(b, c),
    ensures
        lex_leq(a, c),
{
    lemma_lex_trans_from(a, b, c, 0);
}

/// Decides the lexicographic order on two strings.
pub fn str_lex_leq(a: &str, b: &str) -> (r: bool)
    ensures
        r == lex_leq(a@, b@),
{
    let a_len = a.unicode_len();
    let b_len = b.unicode_len();
    let mut i: usize = 0;
    loop
        invariant
            0 <= i <= a_len,
            a_len == a@.len(),
            b_len == b@.len(),
            lex_leq(a@, b@) == lex_leq_from(a@, b@, i as int),
        decreases a_len - i,
    {
        if i >= a_len {
            return true;
        }
        if i >= b_len {
            return false;
        }
        let ca = a.get_char(i) as u32;
        let cb = b.get_char(i) as u32;
        if ca < cb {
            return true;
        }
        if ca > cb {
            return false;
        }
        i = i + 1;
    }
}

// ---------------------------------------------------------------------------
// Substring containment
// ---------------------------------------------------------------------------

/// `needle` occurs contiguously somewhere in `hay` (in particular, an empty
/// needle occurs in every sequence).
pub open spec fn contains_seq(hay: Seq<char>, needle: Seq<char>) -> bool {
    exists|i: int|
        0 <= i <= hay.len() - needle.len() && #[trigger] hay.subrange(i, i + needle.len() as int)
            == needle
}

/// `needle` occurs in `hay` starting at position `i`.
fn matches_at(hay: &Vec<char>, needle: &Vec<char>, i: usize) -> (r: bool)
    requires
        i + needle@.len() <= hay@.len(),
    ensures
        r == (hay@.subrange(i as int, i + needle@.len() as int) == needle@),
{
    let hlen = hay.len();
    let mut j: usize = 0;
    while j < needle.len()
        invariant
            0 <= j <= needle@.len(),
            i + needle@.len() <= hay@.len(),
            hlen == hay@.len(),
            forall|k: int| 0 <= k < j ==> hay@[i + k] == needle@[k],
        decreases needle@.len() - j,
    {
        if hay[i + j] != needle[j] {
            proof {
                let jj = j as int;
                assert(hay@.subrange(i as int, i + needle@.len() as int)[jj] != needle@[jj]);
            }
            return false;
        }
        j = j + 1;
    }
    proof {
        assert(hay@.subrange(i as int, i + needle@.len() as int) =~= needle@);
    }
    true
}

/// Decides substring containment of `needle` in `hay`.
pub fn contains_chars(hay: &Vec<char>, needle: &Vec<char>) -> (r: bool)
    ensures
        r == contains_seq(hay@, needle@),
{
    if needle.len() > hay.len() {
        return false;
    }
    let bound = hay.len() - needle.len();
    let mut i: usize = 0;
    loop
        invariant
            0 <= i <= bound,
            bound == hay@.len() - needle@.len(),
            forall|k: int|
                0 <= k < i ==> #[trigger] hay@.subrange(k, k + needle@.len() as int) != needle@,
        decreases bound - i,
    {
        if matches_at(hay, needle, i) {
            return true;
        }
        if i == bound {
            return false;
        }
        i = i + 1;
    }
}

/// Collects the characters of a string into a vector.
pub fn chars_of(s: &str) -> (r: Vec<char>)
    ensures
        r@ == s@,
{
    let n = s.unicode_len();
    let mut v: Vec<char> = Vec::new();
    let mut i: usize = 0;
    while i < n
        invariant
            0 <= i <= n,
            n == s@.len(),
            v@ =~= s@.take(i as int),
        decreases n - i,
    {
        v.push(s.get_char(i));
        i = i + 1;
    }
    proof {
        assert(v@ =~= s@);
    }
    v
}

// ---------------------------------------------------------------------------
// Decimal rendering
// ---------------------------------------------------------------------------

/// The character for one decimal digit.
pub open spec fn digit_char(d: int) -> char {
    if d == 0 {
        '0'
    } else if d == 1 {
        '1'
    } else if d == 2 {
        '2'
    } else if d == 3 {
        '3'
    } else if d == 4 {
        '4'
    } else if d == 5 {
        '5'
    } else if d == 6 {
        '6'
    } else if d == 7 {
        '7'
    } else if d == 8 {
        '8'
    } else {
        '9'
    }
}

/// The decimal representation of a non-negative number, most significant
/// digit first, without leading zeros (`0` itself is rendered `"0"`).
pub open spec fn dec_rep(n: int) -> Seq<char>
    decreases n,
{
    if n < 10 {
        seq![digit_char(n)]
    } else {
        dec_rep(n / 10).push(digit_char(n % 10))
    }
}

/// The string for one decimal digit.
pub(crate) fn digit_str(d: u64) -> (r: &'static str)
    requires
        d < 10,
    ensures
        r@ =~= seq![digit_char(d as int)],
{
    proof {
        reveal_strlit("0");
        reveal_strlit("1");
        reveal_strlit("2");
        reveal_strlit("3");
        reveal_strlit("4");
        reveal_strlit("5");
        reveal_strlit("6");
        reveal_strlit("7");
        reveal_strlit("8");
        reveal_strlit("9");
    }
    if d == 0 {
        "0"
    } else if d == 1 {
        "1"
    } else if d == 2 {
        "2"
    } else if d == 3 {
        "3"
    } else if d == 4 {
        "4"
    } else if d == 5 {
        "5"
    } else if d == 6 {
        "6"
    } else if d == 7 {
        "7"
    } else if d == 8 {
        "8"
    } else {
        "9"
    }
}

/// Renders a number in decimal.
pub fn dec_string(n: u64) -> (r: String)
    ensures
        r@ == dec_rep(n as int),
    decreases n,
{
    if n < 10 {
        let mut s = String::new();
        s.append(digit_str(n));
        proof {
            assert(s@ =~= dec_rep(n as int));
        }
        s
    } else {
        let mut s = dec_string(n / 10);
        s.append(digit_str(n % 10));
        proof {
            assert(s@ =~= dec_rep(n as int));
        }
        s
    }
}

/// The decimal characters of a number, as a vector.
pub fn dec_chars(n: u64) -> (r: Vec<char>)
    ensures
        r@ == dec_rep(n as int),
{
    let s = dec_string(n);
    chars_of(s.as_str())
}

// ---------------------------------------------------------------------------
// Case folding
// ---------------------------------------------------------------------------

/// The case-folded form of a character sequence, as `str::to_lowercase`
/// computes it.
pub uninterp spec fn lower_of(s: Seq<char>) -> Seq<char>;

/// Relies on `str::to_lowercase`: the result is a function of the
/// characters alone, and an empty string stays empty.
#[verifier::external_body]
pub(crate) fn lowercase(s: &str) -> (r: String)
    ensures
        r@ == lower_of(s@),
        s@.len() == 0 ==> r@.len() == 0,
{
    s.to_lowercase()
}

/// Relies on `String::push`: appends exactly the one character.
#[verifier::external_body]
pub(crate) fn string_push_char(s: &mut String, c: char)
    ensures
        final(s)@ == old(s)@.push(c),
{
    s.push(c);
}

/// Relies on `String::pop`: removes and returns the last character of a
/// non-empty string, and leaves an empty one alone.
#[verifier::external_body]
pub(crate) fn string_pop_char(s: &mut String) -> (r: Option<char>)
    ensures
        old(s)@.len() == 0 ==> final(s)@ == old(s)@ && r == None::<char>,
        old(s)@.len() > 0 ==> final(s)@ == old(s)@.drop_last() && r == Some(old(s)@.last()),
{
    s.pop()
}

/// The case-folded characters of a string, as a vector.
pub(crate) fn lower_chars(s: &str) -> (r: Vec<char>)
    ensures
        r@ == lower_of(s@),
{
    let l = lowercase(s);
    chars_of(l.as_str())
}

} // verus!
