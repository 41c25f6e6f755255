//! Character-level text helpers shared by the scanners and the command parser.

use vstd::prelude::*;

verus! {

broadcast use vstd::string::group_string_axioms;

/// The characters of `s`, in order.
pub fn chars_of(s: &str) -> (res: Vec<char>)
    ensures
        res@ == s@,
{
    let mut res: Vec<char> = Vec::new();
    for c in it: s.chars()
        invariant
            res@ == it.seq().take(it.index() as int),
    {
        res.push(c);
    }
    res
}

} // verus!

verus! {

/// `pat` occurs in `hay` starting at index `i`.
pub open spec fn occurs_at(hay: Seq<char>, pat: Seq<char>, i: int) -> bool {
    &&& 0 <= i
    &&& i + pat.len() <= hay.len()
    &&& hay.subrange(i, i + pat.len()) == pat
}

/// `pat` is a substring of `hay` (the empty text is a substring of every text).
pub open spec fn contains_seq(hay: Seq<char>, pat: Seq<char>) -> bool {
    exists|i: int| occurs_at(hay, pat, i)
}

/// The leftmost index at or after `k` where `pat` occurs in `hay`.
pub open spec fn find_from(hay: Seq<char>, pat: Seq<char>, k: int) -> Option<int>
    decreases hay.len() + 1 - k,
{
    if k < 0 || k + pat.len() > hay.len() {
        None
    } else if hay.subrange(k, k + pat.len()) == pat {
        Some(k)
    } else {
        find_from(hay, pat, k + 1)
    }
}

/// `find_from` gives the leftmost occurrence at or after `k`, or none when there is none.
pub proof fn lemma_find_from(hay: Seq<char>, pat: Seq<char>, k: int)
    requires
        0 <= k,
    ensures
        match find_from(hay, pat, k) {
            Some(j) => k <= j && occurs_at(hay, pat, j) && forall|m: int|
                k <= m < j ==> !occurs_at(hay, pat, m),
            None => forall|m: int| k <= m ==> !occurs_at(hay, pat, m),
        },
    decreases hay.len() + 1 - k,
{
    if k + pat.len() > hay.len() {
    } else if hay.subrange(k, k + pat.len()) == pat {
    } else {
        lemma_find_from(hay, pat, k + 1);
    }
}

/// `contains_seq` is the same as finding an occurrence from the start.
pub proof fn lemma_contains_find(hay: Seq<char>, pat: Seq<char>)
    ensures
        contains_seq(hay, pat) <==> find_from(hay, pat, 0) is Some,
{
    lemma_find_from(hay, pat, 0);
    if find_from(hay, pat, 0) is Some {
        let j = find_from(hay, pat, 0)->0;
        assert(occurs_at(hay, pat, j));
    }
}

/// Whether `pat` occurs in `hay` at index `i`.
pub fn matches_at(hay: &Vec<char>, pat: &Vec<char>, i: usize) -> (res: bool)
    ensures
        res == occurs_at(hay@, pat@, i as int),
{
    if i > hay.len() || pat.len() > hay.len() - i {
        return false;
    }
    let mut j: usize = 0;
    while j < pat.len()
        invariant
            i + pat.len() <= hay.len(),
            0 <= j <= pat.len(),
            forall|m: int| 0 <= m < j ==> hay@[i + m] == pat@[m],
        decreases pat.len() - j,
    {
        if hay[i + j] != pat[j] {
            assert(hay@.subrange(i as int, i + pat.len())[j as int] != pat@[j as int]);
            return false;
        }
        j = j + 1;
    }
    assert(hay@.subrange(i as int, i + pat.len()) =~= pat@);
    true
}

/// The leftmost index at or after `start` where `pat` occurs in `hay`.
pub fn find_first_from(hay: &Vec<char>, pat: &Vec<char>, start: usize) -> (res: Option<usize>)
    ensures
        match res {
            Some(k) => find_from(hay@, pat@, start as int) == Some(k as int),
            None => find_from(hay@, pat@, start as int) is None,
        },
{
    let mut k: usize = start;
    while k <= hay.len() && pat.len() <= hay.len() - k
        invariant
            start <= k,
            find_from(hay@, pat@, start as int) == find_from(hay@, pat@, k as int),
        decreases hay.len() + 1 - k,
    {
        if matches_at(hay, pat, k) {
            return Some(k);
        }
        proof {
            if pat.len() == 0 {
                assert(hay@.subrange(k as int, k + pat.len()) =~= pat@);
            }
        }
        k = k + 1;
    }
    None
}

/// Whether `pat` is a substring of `hay`.
pub fn contains_chars(hay: &Vec<char>, pat: &Vec<char>) -> (res: bool)
    ensures
        res == contains_seq(hay@, pat@),
{
    proof {
        lemma_contains_find(hay@, pat@);
    }
    find_first_from(hay, pat, 0).is_some()
}

} // verus!

verus! {

/// What `str::to_lowercase` gives for `s`.
pub uninterp spec fn lowercased(s: Seq<char>) -> Seq<char>;

/// Calls `str::to_lowercase`. Claims that the result is `lowercased` of the
/// text.
#[verifier::external_body]
pub(crate) fn to_lowercase(s: &str) -> (res: String)
    ensures
        res@ == lowercased(s@),
{
    s.to_lowercase()
}

/// Whether `pat` is a substring of `hay`.
pub fn str_contains(hay: &str, pat: &str) -> (res: bool)
    ensures
        res == contains_seq(hay@, pat@),
{
    let h = chars_of(hay);
    let p = chars_of(pat);
    contains_chars(&h, &p)
}

} // verus!

verus! {

/// Whether two texts are equal.
pub fn str_eq(a: &str, b: &str) -> (res: bool)
    ensures
        res == (a@ == b@),
{
    let x = chars_of(a);
    let y = chars_of(b);
    if x.len() != y.len() {
        return false;
    }
    let mut i: usize = 0;
    while i < x.len()
        invariant
            x@ == a@,
            y@ == b@,
            x@.len() == y@.len(),
            i <= x@.len(),
            forall|j: int| 0 <= j < i ==> x@[j] == y@[j],
        decreases x.len() - i,
    {
        if x[i] != y[i] {
            assert(x@[i as int] != y@[i as int]);
            return false;
        }
        i = i + 1;
    }
    assert(x@ =~= y@);
    true
}

} // verus!

verus! {

/// Collects characters into a `String` (`Iterator::collect` over the
/// characters). Claims that the string holds exactly those characters, in order.
#[verifier::external_body]
fn string_from_chars(chars: &Vec<char>) -> (res: String)
    ensures
        res@ == chars@,
{
    chars.iter().collect()
}

/// The character of a decimal digit.
pub open spec fn digit_char(d: nat) -> char {
    (0x30 + d) as char
}

/// `n` written in base ten, as `Display` writes it.
pub open spec fn decimal_text(n: nat) -> Seq<char>
    decreases n,
{
    if n < 10 {
        seq![digit_char(n)]
    } else {
        decimal_text(n / 10).push(digit_char(n % 10))
    }
}

/// `n` written in base ten with a leading `-` where it is negative.
pub open spec fn signed_decimal_text(n: int) -> Seq<char> {
    if n < 0 {
        seq!['-'] + decimal_text((-n) as nat)
    } else {
        decimal_text(n as nat)
    }
}

fn digit(d: u64) -> (res: char)
    requires
        d < 10,
    ensures
        res == digit_char(d as nat),
{
    let b: u8 = 48 + (d as u8);
    b as char
}

fn push_decimal(n: u64, out: &mut Vec<char>)
    ensures
        final(out)@ == old(out)@ + decimal_text(n as nat),
    decreases n,
{
    if n >= 10 {
        push_decimal(n / 10, out);
    }
    let d = digit(n % 10);
    out.push(d);
    proof {
        if n < 10 {
            assert(decimal_text(n as nat) == seq![digit_char(n as nat)]);
        }
    }
}

/// `n` in base ten.
pub fn u64_text(n: u64) -> (res: String)
    ensures
        res@ == decimal_text(n as nat),
{
    let mut out: Vec<char> = Vec::new();
    push_decimal(n, &mut out);
    assert(out@ =~= decimal_text(n as nat));
    string_from_chars(&out)
}

/// `n` in base ten, with a leading `-` where it is negative.
pub fn i64_text(n: i64) -> (res: String)
    ensures
        res@ == signed_decimal_text(n as int),
{
    let mut out: Vec<char> = Vec::new();
    if n < 0 {
        out.push('-');
        let m: u64 = (0 - (n as i128)) as u64;
        push_decimal(m, &mut out);
    } else {
        push_decimal(n as u64, &mut out);
    }
    string_from_chars(&out)
}

/// `true` or `false`, as `Display` writes a `bool`.
pub open spec fn bool_text(b: bool) -> Seq<char> {
    if b {
        "true"@
    } else {
        "false"@
    }
}

pub fn bool_str(b: bool) -> (res: &'static str)
    ensures
        res@ == bool_text(b),
        b ==> res@ == "true"@,
        !b ==> res@ == "false"@,
{
    if b {
        "true"
    } else {
        "false"
    }
}

/// The two lowercase hexadecimal digits of each byte, in order.
pub open spec fn hex_text(bytes: Seq<u8>) -> Seq<char>
    decreases bytes.len(),
{
    if bytes.len() == 0 {
        Seq::empty()
    } else {
        hex_text(bytes.drop_last()).push(hex_digit_char(bytes.last() as nat / 16)).push(
            hex_digit_char(bytes.last() as nat % 16),
        )
    }
}

/// The lowercase hexadecimal digit of `d < 16`.
pub open spec fn hex_digit_char(d: nat) -> char {
    if d < 10 {
        (0x30 + d) as char
    } else {
        (0x57 + d) as char
    }
}

fn hex_digit(d: u8) -> (res: char)
    requires
        d < 16,
    ensures
        res == hex_digit_char(d as nat),
{
    if d < 10 {
        (48 + d) as char
    } else {
        (87 + d) as char
    }
}

/// Each byte is written as two characters, its high and then its low four
/// bits as a lowercase hexadecimal digit, in the order of the bytes.
pub proof fn lemma_hex_text_digits(bytes: Seq<u8>)
    ensures
        hex_text(bytes).len() == 2 * bytes.len(),
        forall|i: int|
            0 <= i < bytes.len() ==> hex_text(bytes)[2 * i] == hex_digit_char(
                #[trigger] bytes[i] as nat / 16,
            ) && hex_text(bytes)[2 * i + 1] == hex_digit_char(bytes[i] as nat % 16),
    decreases bytes.len(),
{
    if bytes.len() > 0 {
        let b0 = bytes.drop_last();
        lemma_hex_text_digits(b0);
        assert forall|i: int| 0 <= i < bytes.len() implies hex_text(bytes)[2 * i] == hex_digit_char(
            #[trigger] bytes[i] as nat / 16,
        ) && hex_text(bytes)[2 * i + 1] == hex_digit_char(bytes[i] as nat % 16) by {
            if i < b0.len() {
                assert(bytes[i] == b0[i]);
            }
        }
    }
}

/// The twelve bytes of an id in lowercase hexadecimal, as the database shows ids.
pub fn hex_of_id(id: &[u8; 12]) -> (res: String)
    ensures
        res@ == hex_text(id@),
        res@.len() == 24,
        forall|i: int|
            0 <= i < 12 ==> res@[2 * i] == hex_digit_char(#[trigger] id@[i] as nat / 16) && res@[2 * i
                + 1] == hex_digit_char(id@[i] as nat % 16),
{
    proof {
        lemma_hex_text_digits(id@);
    }
    let mut out: Vec<char> = Vec::new();
    let mut i: usize = 0;
    while i < 12
        invariant
            i <= 12,
            id@.len() == 12,
            out@ == hex_text(id@.take(i as int)),
        decreases 12 - i,
    {
        let b = id[i];
        assert(id@.take(i + 1).drop_last() =~= id@.take(i as int));
        out.push(hex_digit(b / 16));
        out.push(hex_digit(b % 16));
        i = i + 1;
    }
    assert(id@.take(12) =~= id@);
    string_from_chars(&out)
}

} // verus!
