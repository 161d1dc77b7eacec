//! Text helpers: characters, trimming, digits, and the two Unicode operations
//! that the standard library does for us.

use vstd::prelude::*;
#[allow(unused_imports)]
use vstd::utf8::{decode_utf8, valid_utf8};

verus! {

/// `String::push` appends exactly the given character.
pub assume_specification[ String::push ](s: &mut String, ch: char)
    ensures
        final(s)@ == old(s)@.push(ch),
;

/// What `char::to_uppercase` gives for one character.
pub uninterp spec fn uppercase(c: char) -> Seq<char>;

/// What `String::from_utf8_lossy` gives for a byte string.
pub uninterp spec fn lossy_text(bytes: Seq<u8>) -> Seq<char>;

/// Calls `char::to_uppercase`. The result is one or more characters; an ASCII
/// letter maps to its capital and every other ASCII character to itself. The
/// mapping of the remaining characters is Unicode's and only has a name here;
/// nothing is claimed of mapping such a character twice.
#[verifier::external_body]
pub(crate) fn to_uppercase(c: char) -> (r: String)
    ensures
        r@ == uppercase(c),
        r@.len() >= 1,
        'a' <= c <= 'z' ==> r@ == seq![((c as u32) - 32) as char],
        (c as u32) < 128 && !('a' <= c <= 'z') ==> r@ == seq![c],
{
    c.to_uppercase().to_string()
}

/// Calls `String::from_utf8_lossy`. Well-formed UTF-8 is decoded as it is, and
/// since each ill-formed stretch is replaced by U+FFFD, only the empty byte
/// string gives the empty text. How an ill-formed stretch is cut into
/// replacement characters only has a name here.
#[verifier::external_body]
pub(crate) fn from_utf8_lossy(bytes: &[u8]) -> (r: String)
    ensures
        r@ == lossy_text(bytes@),
        valid_utf8(bytes@) ==> r@ == decode_utf8(bytes@),
        r@.len() == 0 <==> bytes@.len() == 0,
{
    String::from_utf8_lossy(bytes).into_owned()
}

/// The characters of `s`, in order.
pub(crate) fn chars_of(s: &str) -> (r: Vec<char>)
    ensures
        r@ == s@,
{
    let mut out: Vec<char> = Vec::new();
    for c in it: s.chars()
        invariant
            out@ == it.seq().take(it.index() as int),
            it.seq() == s@,
    {
        out.push(c);
        assert(out@ =~= it.seq().take(it.index() as int + 1));
    }
    assert(out@ =~= s@);
    out
}

/// The characters `from..to` of `chars` as a string.
pub(crate) fn string_of(chars: &Vec<char>, from: usize, to: usize) -> (r: String)
    requires
        from <= to <= chars@.len(),
    ensures
        r@ == chars@.subrange(from as int, to as int),
{
    let mut out: String = String::new();
    let mut i: usize = from;
    while i < to
        invariant
            from <= i <= to <= chars@.len(),
            out@ == chars@.subrange(from as int, i as int),
        decreases to - i,
    {
        out.push(chars[i]);
        i += 1;
        assert(out@ =~= chars@.subrange(from as int, i as int));
    }
    out
}

/// Appends all of `tail` to `s`.
pub(crate) fn push_all(s: &mut String, tail: &str)
    ensures
        final(s)@ == old(s)@ + tail@,
{
    let ghost start = s@;
    for c in it: tail.chars()
        invariant
            s@ == start + it.seq().take(it.index() as int),
            it.seq() == tail@,
    {
        s.push(c);
        assert(s@ =~= start + it.seq().take(it.index() as int + 1));
    }
    assert(s@ =~= start + tail@);
}

/// Unicode's White_Space characters.
pub open spec fn is_white_space(c: char) -> bool {
    let u = c as u32;
    ||| 0x9 <= u <= 0xd
    ||| u == 0x20
    ||| u == 0x85
    ||| u == 0xa0
    ||| u == 0x1680
    ||| 0x2000 <= u <= 0x200a
    ||| u == 0x2028
    ||| u == 0x2029
    ||| u == 0x202f
    ||| u == 0x205f
    ||| u == 0x3000
}

/// `s` without the white space it starts with.
pub open spec fn trim_front(s: Seq<char>) -> Seq<char>
    decreases s.len(),
{
    if s.len() > 0 && is_white_space(s[0]) {
        trim_front(s.skip(1))
    } else {
        s
    }
}

/// `s` without the white space it ends with.
pub open spec fn trim_back(s: Seq<char>) -> Seq<char>
    decreases s.len(),
{
    if s.len() > 0 && is_white_space(s.last()) {
        trim_back(s.drop_last())
    } else {
        s
    }
}

/// `s` without the white space around it.
pub open spec fn trimmed(s: Seq<char>) -> Seq<char> {
    trim_back(trim_front(s))
}

fn white_space(c: char) -> (r: bool)
    ensures
        r == is_white_space(c),
{
    let u: u32 = c as u32;
    (0x9 <= u && u <= 0xd) || u == 0x20 || u == 0x85 || u == 0xa0 || u == 0x1680 || (0x2000 <= u
        && u <= 0x200a) || u == 0x2028 || u == 0x2029 || u == 0x202f || u == 0x205f || u == 0x3000
}

/// Cuts the white space around `s` off.
pub fn trim(s: &str) -> (r: String)
    ensures
        r@ == trimmed(s@),
{
    let chars = chars_of(s);
    let mut from: usize = 0;
    assert(chars@.skip(0) =~= chars@);
    while from < chars.len() && white_space(chars[from])
        invariant
            chars@ == s@,
            from <= chars@.len(),
            trim_front(chars@.skip(from as int)) == trim_front(s@),
        decreases chars@.len() - from,
    {
        assert(chars@.skip(from as int).skip(1) =~= chars@.skip(from + 1));
        from += 1;
    }
    let mut to: usize = chars.len();
    assert(chars@.subrange(from as int, to as int) =~= chars@.skip(from as int));
    while from < to && white_space(chars[to - 1])
        invariant
            chars@ == s@,
            from <= to <= chars@.len(),
            trim_back(chars@.subrange(from as int, to as int)) == trimmed(s@),
        decreases to - from,
    {
        assert(chars@.subrange(from as int, to as int).drop_last() =~= chars@.subrange(
            from as int,
            to - 1,
        ));
        to -= 1;
    }
    string_of(&chars, from, to)
}

/// `c` with an ASCII capital turned into its small letter.
pub open spec fn ascii_lower(c: char) -> char {
    if 'A' <= c <= 'Z' {
        ((c as u32) + 32) as char
    } else {
        c
    }
}

/// Turns an ASCII capital into its small letter.
pub fn to_ascii_lower(c: char) -> (r: char)
    ensures
        r == ascii_lower(c),
{
    if 'A' <= c && c <= 'Z' {
        (c as u8 + 32) as char
    } else {
        c
    }
}

/// The decimal digit with value `d`.
pub open spec fn decimal_digit(d: int) -> char {
    ('0' as u32 + d) as char
}

/// `n` in decimal, without leading zeros.
pub open spec fn decimal_text(n: nat) -> Seq<char>
    decreases n,
{
    if n < 10 {
        seq![decimal_digit(n as int)]
    } else {
        decimal_text(n / 10).push(decimal_digit((n % 10) as int))
    }
}

/// Writes `n` in decimal.
pub fn decimal(n: u32) -> (r: String)
    ensures
        r@ == decimal_text(n as nat),
    decreases n,
{
    let mut s: String = if n < 10 {
        String::new()
    } else {
        decimal(n / 10)
    };
    s.push((48 + (n % 10) as u8) as char);
    assert(s@ =~= decimal_text(n as nat));
    s
}

/// The small hexadecimal digit with value `d`.
pub open spec fn hex_digit(d: int) -> char {
    if d < 10 {
        ('0' as u32 + d) as char
    } else {
        ('a' as u32 + d - 10) as char
    }
}

/// `b` as two hexadecimal digits.
pub open spec fn hex_pair(b: u8) -> Seq<char> {
    seq![hex_digit(b as int / 16), hex_digit(b as int % 16)]
}

fn to_hex_digit(d: u8) -> (r: char)
    requires
        d < 16,
    ensures
        r == hex_digit(d as int),
{
    if d < 10 {
        (48 + d) as char
    } else {
        (97 + (d - 10)) as char
    }
}

/// Appends `b` as two hexadecimal digits.
pub(crate) fn push_hex(s: &mut String, b: u8)
    ensures
        final(s)@ == old(s)@ + hex_pair(b),
{
    let ghost start = s@;
    s.push(to_hex_digit(b / 16));
    s.push(to_hex_digit(b % 16));
    assert(s@ =~= start + hex_pair(b));
}

/// Whether two texts are equal.
pub(crate) fn same(a: &str, b: &str) -> (r: bool)
    ensures
        r == (a@ == b@),
{
    a.to_string() == b.to_string()
}

/// Whether there is nothing but white space in `s`.
pub open spec fn is_blank(s: Seq<char>) -> bool {
    forall|i: int| 0 <= i < s.len() ==> is_white_space(#[trigger] s[i])
}

proof fn lemma_trim_front_of_blank(before: Seq<char>, s: Seq<char>)
    requires
        is_blank(before),
    ensures
        trim_front(before + s) == trim_front(s),
    decreases before.len(),
{
    if before.len() == 0 {
        assert(before + s =~= s);
    } else {
        let rest = before.skip(1);
        assert forall|i: int| 0 <= i < rest.len() implies is_white_space(#[trigger] rest[i]) by {
            assert(rest[i] == before[i + 1]);
        }
        assert(is_white_space(before[0]));
        assert((before + s).skip(1) =~= rest + s);
        lemma_trim_front_of_blank(rest, s);
    }
}

proof fn lemma_trim_back_of_blank(s: Seq<char>, after: Seq<char>)
    requires
        is_blank(after),
    ensures
        trim_back(s + after) == trim_back(s),
    decreases after.len(),
{
    if after.len() == 0 {
        assert(s + after =~= s);
    } else {
        let rest = after.drop_last();
        assert forall|i: int| 0 <= i < rest.len() implies is_white_space(#[trigger] rest[i]) by {
            assert(rest[i] == after[i]);
        }
        assert(is_white_space(after[after.len() - 1]));
        assert((s + after).drop_last() =~= s + rest);
        lemma_trim_back_of_blank(s, rest);
    }
}

proof fn lemma_trim_front_keeps_the_end(s: Seq<char>, after: Seq<char>)
    requires
        is_blank(after),
    ensures
        trim_back(trim_front(s + after)) == trim_back(trim_front(s)),
    decreases s.len(),
{
    if s.len() == 0 {
        assert(s + after =~= after + s);
        lemma_trim_front_of_blank(after, s);
    } else if is_white_space(s[0]) {
        assert((s + after).skip(1) =~= s.skip(1) + after);
        lemma_trim_front_keeps_the_end(s.skip(1), after);
    } else {
        lemma_trim_back_of_blank(s, after);
    }
}

/// White space around a text makes no difference once it is trimmed.
pub proof fn law_white_space_is_trimmed(before: Seq<char>, s: Seq<char>, after: Seq<char>)
    requires
        is_blank(before),
        is_blank(after),
    ensures
        trimmed(before + s + after) == trimmed(s),
{
    assert(before + s + after =~= before + (s + after));
    lemma_trim_front_of_blank(before, s + after);
    lemma_trim_front_keeps_the_end(s, after);
}

/// `s` with its ASCII capitals turned into small letters.
pub open spec fn lowered(s: Seq<char>) -> Seq<char> {
    s.map_values(|c: char| ascii_lower(c))
}

proof fn lemma_trim_front_of_lowered(s: Seq<char>)
    ensures
        trim_front(lowered(s)) == lowered(trim_front(s)),
    decreases s.len(),
{
    if s.len() > 0 && is_white_space(s[0]) {
        assert(lowered(s).skip(1) =~= lowered(s.skip(1)));
        lemma_trim_front_of_lowered(s.skip(1));
    }
}

proof fn lemma_trim_back_of_lowered(s: Seq<char>)
    ensures
        trim_back(lowered(s)) == lowered(trim_back(s)),
    decreases s.len(),
{
    if s.len() > 0 && is_white_space(s.last()) {
        assert(lowered(s).drop_last() =~= lowered(s.drop_last()));
        lemma_trim_back_of_lowered(s.drop_last());
    }
}

pub(crate) proof fn lemma_trimmed_of_lowered(s: Seq<char>)
    ensures
        trimmed(lowered(s)) == lowered(trimmed(s)),
{
    lemma_trim_front_of_lowered(s);
    lemma_trim_back_of_lowered(trim_front(s));
}

/// A capital from `A` to `Z` becomes the small letter 32 places on; nothing else
/// changes.
pub proof fn law_small_letters(c: char)
    ensures
        'A' <= c <= 'Z' ==> ascii_lower(c) as int == c as int + 32 && 'a' <= ascii_lower(c) <= 'z',
        !('A' <= c <= 'Z') ==> ascii_lower(c) == c,
        ascii_lower('D') == 'd' && ascii_lower('J') == 'j' && ascii_lower('K') == 'k'
            && ascii_lower('Q') == 'q',
{
}

/// The number that decimal digits stand for.
pub open spec fn number_in(s: Seq<char>) -> int
    decreases s.len(),
{
    if s.len() == 0 {
        0
    } else {
        10 * number_in(s.drop_last()) + (s.last() as int - '0' as int)
    }
}

/// A number in decimal is read back as that number. It has nothing but digits,
/// at least one, and no zero in front of others.
pub proof fn law_numbers_are_read_back(n: nat)
    ensures
        ({
            let s = decimal_text(n);
            &&& number_in(s) == n
            &&& s.len() >= 1
            &&& forall|i: int| 0 <= i < s.len() ==> '0' <= #[trigger] s[i] <= '9'
            &&& s[0] == '0' ==> s.len() == 1
            &&& n > 0 ==> s[0] != '0'
        }),
    decreases n,
{
    let s = decimal_text(n);
    if n < 10 {
        assert(s.drop_last() =~= Seq::<char>::empty());
        assert(number_in(s.drop_last()) == 0);
        assert(s.last() == decimal_digit(n as int));
    } else {
        law_numbers_are_read_back(n / 10);
        let front = decimal_text(n / 10);
        assert(s.drop_last() =~= front);
        assert(s.last() == decimal_digit((n % 10) as int));
        assert(s[0] == front[0]);
        assert forall|i: int| 0 <= i < s.len() implies '0' <= #[trigger] s[i] <= '9' by {
            if i < front.len() {
                assert(s[i] == front[i]);
            }
        }
    }
}

/// What is left after trimming neither starts nor ends with white space, and it
/// stands in the text as it is, with white space only around it.
pub proof fn law_trimming_leaves_the_middle(s: Seq<char>) -> (parts: (Seq<char>, Seq<char>))
    ensures
        is_blank(parts.0) && is_blank(parts.1),
        s == parts.0 + trimmed(s) + parts.1,
        trimmed(s).len() > 0 ==> !is_white_space(trimmed(s)[0]) && !is_white_space(
            trimmed(s).last(),
        ),
{
    let before = lemma_trim_front_splits(s);
    let after = lemma_trim_back_splits(trim_front(s));
    assert(s =~= before + trimmed(s) + after);
    (before, after)
}

proof fn lemma_trim_front_splits(s: Seq<char>) -> (before: Seq<char>)
    ensures
        is_blank(before),
        s == before + trim_front(s),
        trim_front(s).len() > 0 ==> !is_white_space(trim_front(s)[0]),
    decreases s.len(),
{
    if s.len() > 0 && is_white_space(s[0]) {
        let rest = lemma_trim_front_splits(s.skip(1));
        let before = seq![s[0]] + rest;
        assert(s =~= seq![s[0]] + s.skip(1));
        assert(seq![s[0]] + (rest + trim_front(s)) =~= before + trim_front(s));
        assert(s =~= before + trim_front(s));
        before
    } else {
        assert(s =~= Seq::<char>::empty() + s);
        Seq::empty()
    }
}

proof fn lemma_trim_back_splits(s: Seq<char>) -> (after: Seq<char>)
    ensures
        is_blank(after),
        s == trim_back(s) + after,
        trim_back(s).len() > 0 ==> !is_white_space(trim_back(s).last()),
        trim_back(s).len() > 0 ==> trim_back(s)[0] == s[0],
    decreases s.len(),
{
    if s.len() > 0 && is_white_space(s.last()) {
        let rest = lemma_trim_back_splits(s.drop_last());
        let after = rest.push(s.last());
        assert(s =~= s.drop_last().push(s.last()));
        assert((trim_back(s) + rest).push(s.last()) =~= trim_back(s) + after);
        assert(s =~= trim_back(s) + after);
        after
    } else {
        assert(s =~= s + Seq::<char>::empty());
        Seq::empty()
    }
}

} // verus!
