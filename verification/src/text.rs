//! Text that players read: decimal numbers, joined words, trimmed lines.
//!
//! Every function here is specified over the characters of the text it builds
//! (`Seq<char>`), so a contract elsewhere can say exactly what a chat line holds.

use vstd::prelude::*;

verus! {

/// `String::push`: appends one character to the end of the string.
pub assume_specification[ String::push ](s: &mut String, c: char)
    ensures
        final(s)@ == old(s)@.push(c),
;

/// The decimal digits of `n`, most significant first, without leading zeros.
pub open spec fn nat_text(n: nat) -> Seq<char>
    decreases n,
{
    if n < 10 {
        seq![(48 + n) as char]
    } else {
        nat_text(n / 10).push((48 + n % 10) as char)
    }
}

/// The decimal form of `i`, with a minus sign when it is negative.
pub open spec fn int_text(i: int) -> Seq<char> {
    if i < 0 {
        seq!['-'] + nat_text((-i) as nat)
    } else {
        nat_text(i as nat)
    }
}

/// Appends the decimal digits of `n` to `out`.
fn push_nat(out: &mut String, n: u128)
    ensures
        final(out)@ == old(out)@ + nat_text(n as nat),
    decreases n,
{
    if n >= 10 {
        push_nat(out, n / 10);
    }
    let digit: u8 = (n % 10) as u8;
    out.push((48 + digit) as char);
    assert(out@ =~= old(out)@ + nat_text(n as nat));
}

/// Appends the decimal form of `i` to `out`.
pub fn push_int(out: &mut String, i: i128)
    requires
        i > i128::MIN,
    ensures
        final(out)@ == old(out)@ + int_text(i as int),
{
    if i < 0 {
        out.push('-');
        push_nat(out, (-i) as u128);
        assert(out@ =~= old(out)@ + int_text(i as int));
    } else {
        push_nat(out, i as u128);
    }
}

/// The characters of `s`, one by one.
pub fn chars_of(s: &str) -> (r: Vec<char>)
    ensures
        r@ == s@,
{
    let mut r: Vec<char> = Vec::new();
    for c in it: s.chars()
        invariant
            it.seq() == s@,
            r@ == s@.take(it.index()),
    {
        r.push(c);
        assert(s@.take(it.index()).push(c) =~= s@.take(it.index() + 1));
    }
    assert(s@.take(s@.len() as int) =~= s@);
    r
}

/// `words` one after the other, with `sep` between neighbours.
pub open spec fn joined(words: Seq<Seq<char>>, sep: Seq<char>) -> Seq<char>
    decreases words.len(),
{
    if words.len() == 0 {
        Seq::empty()
    } else if words.len() == 1 {
        words[0]
    } else {
        joined(words.drop_last(), sep) + sep + words.last()
    }
}

/// The texts that `words` holds.
pub open spec fn texts(words: Seq<String>) -> Seq<Seq<char>> {
    words.map_values(|w: String| w@)
}

/// Joins `words` with `sep` between neighbours.
pub fn join(words: &Vec<String>, sep: &str) -> (r: String)
    ensures
        r@ == joined(texts(words@), sep@),
{
    let mut r = String::new();
    let n: usize = words.len();
    let mut i: usize = 0;
    while i < n
        invariant
            i <= n,
            n == words@.len(),
            r@ == joined(texts(words@.take(i as int)), sep@),
        decreases n - i,
    {
        if i > 0 {
            r.append(sep);
        }
        r.append(words[i].as_str());
        proof {
            let before = texts(words@.take(i as int));
            let after = texts(words@.take(i + 1));
            assert(after.drop_last() =~= before);
            assert(after.last() == words@[i as int]@);
            assert(r@ =~= joined(after, sep@));
        }
        i += 1;
    }
    assert(words@.take(n as int) =~= words@);
    r
}

/// The characters with the Unicode property `White_Space`.
pub open spec fn is_white_space(c: char) -> bool {
    ||| 0x9 <= c as int <= 0xd
    ||| c as int == 0x20
    ||| c as int == 0x85
    ||| c as int == 0xa0
    ||| c as int == 0x1680
    ||| 0x2000 <= c as int <= 0x200a
    ||| c as int == 0x2028
    ||| c as int == 0x2029
    ||| c as int == 0x202f
    ||| c as int == 0x205f
    ||| c as int == 0x3000
}

/// `s` without the white space in front of it.
pub open spec fn without_leading_space(s: Seq<char>) -> Seq<char>
    decreases s.len(),
{
    if s.len() > 0 && is_white_space(s[0]) {
        without_leading_space(s.drop_first())
    } else {
        s
    }
}

/// `s` without the white space behind it.
pub open spec fn without_trailing_space(s: Seq<char>) -> Seq<char>
    decreases s.len(),
{
    if s.len() > 0 && is_white_space(s.last()) {
        without_trailing_space(s.drop_last())
    } else {
        s
    }
}

/// `s` without the white space around it.
pub open spec fn trimmed(s: Seq<char>) -> Seq<char> {
    without_trailing_space(without_leading_space(s))
}

/// Whether `c` is white space.
fn white_space(c: char) -> (r: bool)
    ensures
        r == is_white_space(c),
{
    let v: u32 = char_code(c);
    (0x9 <= v && v <= 0xd) || v == 0x20 || v == 0x85 || v == 0xa0 || v == 0x1680 || (0x2000 <= v
        && v <= 0x200a) || v == 0x2028 || v == 0x2029 || v == 0x202f || v == 0x205f || v == 0x3000
}

/// Removes the white space around `s`.
pub fn trim(s: &str) -> (r: String)
    ensures
        r@ == trimmed(s@),
{
    let cs = chars_of(s);
    let mut lo: usize = 0;
    assert(cs@.skip(0) =~= cs@);
    while lo < cs.len() && white_space(cs[lo])
        invariant
            lo <= cs@.len(),
            without_leading_space(cs@.skip(lo as int)) == without_leading_space(cs@),
        decreases cs@.len() - lo,
    {
        assert(cs@.skip(lo as int).drop_first() =~= cs@.skip(lo + 1));
        lo += 1;
    }
    let mut hi: usize = cs.len();
    let ghost rest = cs@.skip(lo as int);
    assert(without_leading_space(cs@) == rest);
    assert(cs@.subrange(lo as int, hi as int) =~= rest);
    while hi > lo && white_space(cs[hi - 1])
        invariant
            lo <= hi <= cs@.len(),
            without_trailing_space(cs@.subrange(lo as int, hi as int)) == without_trailing_space(rest),
        decreases hi,
    {
        assert(cs@.subrange(lo as int, hi as int).drop_last() =~= cs@.subrange(lo as int, hi - 1));
        hi -= 1;
    }
    let ghost kept = cs@.subrange(lo as int, hi as int);
    assert(without_trailing_space(rest) == kept);
    let mut r = String::new();
    let mut i: usize = lo;
    while i < hi
        invariant
            lo <= i <= hi <= cs@.len(),
            r@ == cs@.subrange(lo as int, i as int),
        decreases hi - i,
    {
        r.push(cs[i]);
        assert(cs@.subrange(lo as int, i as int).push(cs@[i as int]) =~= cs@.subrange(lo as int, i + 1));
        i += 1;
    }
    r
}

/// Whether two texts are the same.
pub fn same_text(a: &str, b: &str) -> (r: bool)
    ensures
        r == (a@ == b@),
{
    a.to_owned() == b.to_owned()
}

/// `piece` repeated `n` times.
pub open spec fn repeated(piece: Seq<char>, n: nat) -> Seq<char>
    decreases n,
{
    if n == 0 {
        Seq::empty()
    } else {
        repeated(piece, (n - 1) as nat) + piece
    }
}

/// Appends `piece` to `out` `n` times.
pub fn push_repeated(out: &mut String, piece: &str, n: usize)
    ensures
        final(out)@ == old(out)@ + repeated(piece@, n as nat),
{
    let mut i: usize = 0;
    assert(out@ =~= old(out)@ + repeated(piece@, 0));
    while i < n
        invariant
            i <= n,
            out@ == old(out)@ + repeated(piece@, i as nat),
        decreases n - i,
    {
        out.append(piece);
        assert(out@ =~= old(out)@ + repeated(piece@, (i + 1) as nat));
        i += 1;
    }
}

/// The code point of `c`.
fn char_code(c: char) -> (r: u32)
    ensures
        r == c as int,
{
    c as u32
}

/// Whether every character of `s` is an ASCII digit.
pub open spec fn all_digits(s: Seq<char>) -> bool {
    forall|i: int| 0 <= i < s.len() ==> 48 <= #[trigger] s[i] as int <= 57
}

/// The number that the digits `s` write, most significant first.
pub open spec fn digits_value(s: Seq<char>) -> nat
    decreases s.len(),
{
    if s.len() == 0 {
        0
    } else {
        digits_value(s.drop_last()) * 10 + (s.last() as int - 48) as nat
    }
}

/// A byte written in decimal: an optional plus sign, then nothing but digits.
pub open spec fn byte_text_value(s: Seq<char>) -> Option<u8> {
    let digits = if s.len() > 0 && s[0] == '+' { s.drop_first() } else { s };
    if digits.len() > 0 && all_digits(digits) && digits_value(digits) <= 255 {
        Some(digits_value(digits) as u8)
    } else {
        None
    }
}

/// A number never shrinks when more digits follow.
proof fn lemma_digits_value_grows(s: Seq<char>, k: int)
    requires
        0 <= k <= s.len(),
    ensures
        digits_value(s.take(k)) <= digits_value(s),
    decreases s.len() - k,
{
    if k < s.len() {
        assert(s.take(k + 1).drop_last() =~= s.take(k));
        lemma_digits_value_grows(s, k + 1);
    } else {
        assert(s.take(k) =~= s);
    }
}

/// Reads a byte written in decimal.
pub fn parse_byte(s: &str) -> (r: Option<u8>)
    ensures
        r == byte_text_value(s@),
{
    let cs = chars_of(s);
    let start: usize = if cs.len() > 0 && cs[0] == '+' {
        1
    } else {
        0
    };
    let ghost digits = cs@.skip(start as int);
    assert(start == 0 ==> digits =~= s@);
    assert(start == 1 ==> digits =~= s@.drop_first());
    if start == cs.len() {
        return None;
    }
    let mut value: u16 = 0;
    let mut i: usize = start;
    while i < cs.len()
        invariant
            start <= i <= cs@.len(),
            digits == cs@.skip(start as int),
            value <= 255,
            value == digits_value(digits.take(i - start)),
            all_digits(digits.take(i - start)),
            byte_text_value(s@) == (if digits.len() > 0 && all_digits(digits) && digits_value(digits) <= 255 {
                Some(digits_value(digits) as u8)
            } else {
                None
            }),
        decreases cs@.len() - i,
    {
        let c: u32 = char_code(cs[i]);
        assert(digits[i - start] == cs@[i as int]);
        if c < 48 || c > 57 {
            return None;
        }
        value = value * 10 + (c - 48) as u16;
        proof {
            let longer = digits.take(i + 1 - start);
            assert(longer.drop_last() =~= digits.take(i - start));
            assert(longer.last() == cs@[i as int]);
            assert forall|j: int| 0 <= j < longer.len() implies 48 <= #[trigger] longer[j] as int
                <= 57 by {
                if j < longer.len() - 1 {
                    assert(longer[j] == digits.take(i - start)[j]);
                } else {
                    assert(longer[j] == digits[i - start]);
                }
            }
        }
        i += 1;
        if value > 255 {
            proof {
                lemma_digits_value_grows(digits, i - start);
            }
            return None;
        }
    }
    assert(digits.take(i - start) =~= digits);
    Some(value as u8)
}

/// Repeating a character `n` times gives `n` copies of it in a row and nothing else.
pub proof fn law_repeated_is_the_piece_again(piece: Seq<char>, n: nat)
    requires
        piece.len() == 1,
    ensures
        repeated(piece, n).len() == n,
        forall|k: int| 0 <= k < n ==> #[trigger] repeated(piece, n)[k] == piece[0],
    decreases n,
{
    if n > 0 {
        law_repeated_is_the_piece_again(piece, (n - 1) as nat);
    }
}

/// A number that was written in decimal reads back as itself, and nothing but its sign and
/// its digits was written, without zeros in front.
pub proof fn law_number_reads_back(i: int)
    ensures
        i >= 0 ==> all_digits(int_text(i)) && digits_value(int_text(i)) == i && int_text(i).len() > 0
            && (int_text(i)[0] == '0' ==> i == 0 && int_text(i).len() == 1),
        i < 0 ==> int_text(i).len() > 1 && int_text(i)[0] == '-' && int_text(i).drop_first()
            == int_text(-i),
        0 <= i < 10 ==> int_text(i).len() == 1,
        i >= 10 ==> int_text(i).len() == int_text(i / 10).len() + 1,
{
    if i >= 0 {
        lemma_digits_read_back(i as nat);
    } else {
        lemma_digits_read_back((-i) as nat);
        assert(int_text(i).drop_first() =~= int_text(-i));
    }
}

proof fn lemma_digits_read_back(n: nat)
    ensures
        nat_text(n).len() > 0,
        all_digits(nat_text(n)),
        digits_value(nat_text(n)) == n,
        nat_text(n)[0] == '0' ==> n == 0,
        n < 10 ==> nat_text(n).len() == 1,
    decreases n,
{
    let text = nat_text(n);
    if n < 10 {
        assert(text.drop_last() =~= Seq::empty());
        reveal_with_fuel(digits_value, 2);
    } else {
        lemma_digits_read_back(n / 10);
        let front = nat_text(n / 10);
        assert(text.drop_last() =~= front);
        assert(text[0] == front[0]);
        assert forall|i: int| 0 <= i < text.len() implies 48 <= #[trigger] text[i] as int <= 57 by {
            if i < front.len() {
                assert(text[i] == front[i]);
            }
        }
    }
}

/// Words are joined in order, each whole, with the separator between neighbours and
/// nowhere else.
pub proof fn law_joined_words_stand_in_order(words: Seq<Seq<char>>, sep: Seq<char>)
    ensures
        words.len() == 0 ==> joined(words, sep).len() == 0,
        words.len() > 0 ==> joined(words, sep) == words[0] + words.skip(1).map_values(
            |w: Seq<char>| sep + w,
        ).flatten(),
    decreases words.len(),
{
    if words.len() == 1 {
        assert(words.skip(1).map_values(|w: Seq<char>| sep + w) =~= Seq::empty());
        assert(joined(words, sep) =~= words[0] + Seq::<char>::empty());
    } else if words.len() > 1 {
        let fewer = words.drop_last();
        law_joined_words_stand_in_order(fewer, sep);
        let tails = words.skip(1).map_values(|w: Seq<char>| sep + w);
        let before = fewer.skip(1).map_values(|w: Seq<char>| sep + w);
        assert(tails =~= before.push(sep + words.last()));
        before.lemma_flatten_push(sep + words.last());
        assert(joined(words, sep) =~= words[0] + tails.flatten());
    }
}

/// Trimming takes off nothing but white space, from both ends, and leaves none there.
pub proof fn law_trimming_takes_off_the_space_around(s: Seq<char>)
    ensures
        exists|lo: int, hi: int|
            {
                &&& 0 <= lo <= hi <= s.len()
                &&& trimmed(s) == #[trigger] s.subrange(lo, hi)
                &&& forall|k: int| 0 <= k < lo || hi <= k < s.len() ==> is_white_space(#[trigger] s[k])
            },
        trimmed(s).len() > 0 ==> !is_white_space(trimmed(s)[0]) && !is_white_space(
            trimmed(s).last(),
        ),
{
    lemma_leading_space(s);
    let rest = without_leading_space(s);
    lemma_trailing_space(rest);
    let lo = s.len() - rest.len();
    let hi = lo + trimmed(s).len();
    assert(trimmed(s) =~= s.subrange(lo, hi));
    assert forall|k: int| 0 <= k < lo || hi <= k < s.len() implies is_white_space(#[trigger] s[k]) by {
        if hi <= k {
            assert(rest[k - lo] == s[k]);
        }
    }
    if trimmed(s).len() > 0 {
        assert(trimmed(s)[0] == rest[0]);
    }
}

proof fn lemma_leading_space(s: Seq<char>)
    ensures
        ({
            let rest = without_leading_space(s);
            let lo = s.len() - rest.len();
            &&& 0 <= lo
            &&& rest == s.skip(lo)
            &&& forall|k: int| 0 <= k < lo ==> is_white_space(#[trigger] s[k])
            &&& rest.len() > 0 ==> !is_white_space(rest[0])
        }),
    decreases s.len(),
{
    if s.len() > 0 && is_white_space(s[0]) {
        let shorter = s.drop_first();
        lemma_leading_space(shorter);
        let rest = without_leading_space(s);
        let lo = s.len() - rest.len();
        assert(rest =~= s.skip(lo));
        assert forall|k: int| 0 <= k < lo implies is_white_space(#[trigger] s[k]) by {
            if k > 0 {
                assert(s[k] == shorter[k - 1]);
            }
        }
    } else {
        assert(s.skip(0) =~= s);
    }
}

proof fn lemma_trailing_space(s: Seq<char>)
    ensures
        ({
            let rest = without_trailing_space(s);
            &&& rest.len() <= s.len()
            &&& rest == s.take(rest.len() as int)
            &&& forall|k: int| rest.len() <= k < s.len() ==> is_white_space(#[trigger] s[k])
            &&& rest.len() > 0 ==> !is_white_space(rest.last())
        }),
    decreases s.len(),
{
    if s.len() > 0 && is_white_space(s.last()) {
        let shorter = s.drop_last();
        lemma_trailing_space(shorter);
        let rest = without_trailing_space(s);
        assert(rest =~= s.take(rest.len() as int));
        assert forall|k: int| rest.len() <= k < s.len() implies is_white_space(#[trigger] s[k]) by {
            if k < s.len() - 1 {
                assert(s[k] == shorter[k]);
            }
        }
    } else {
        assert(s.take(s.len() as int) =~= s);
    }
}

/// White space is what Unicode counts as such: the tabs and line breaks, the spaces of
/// every width, and the separators; no letter, digit or sign is among them.
pub proof fn law_white_space_is_that_of_unicode(c: char)
    ensures
        is_white_space(c) <==> seq![
            0x9int,
            0xa,
            0xb,
            0xc,
            0xd,
            0x20,
            0x85,
            0xa0,
            0x1680,
            0x2000,
            0x2001,
            0x2002,
            0x2003,
            0x2004,
            0x2005,
            0x2006,
            0x2007,
            0x2008,
            0x2009,
            0x200a,
            0x2028,
            0x2029,
            0x202f,
            0x205f,
            0x3000,
        ].contains(c as int),
{
    let spaces = seq![
        0x9int,
        0xa,
        0xb,
        0xc,
        0xd,
        0x20,
        0x85,
        0xa0,
        0x1680,
        0x2000,
        0x2001,
        0x2002,
        0x2003,
        0x2004,
        0x2005,
        0x2006,
        0x2007,
        0x2008,
        0x2009,
        0x200a,
        0x2028,
        0x2029,
        0x202f,
        0x205f,
        0x3000,
    ];
    if is_white_space(c) {
        let v = c as int;
        let i: int = if v <= 0xd {
            v - 0x9
        } else if v == 0x20 {
            5
        } else if v == 0x85 {
            6
        } else if v == 0xa0 {
            7
        } else if v == 0x1680 {
            8
        } else if v <= 0x200a {
            9 + v - 0x2000
        } else if v == 0x2028 {
            20
        } else if v == 0x2029 {
            21
        } else if v == 0x202f {
            22
        } else if v == 0x205f {
            23
        } else {
            24
        };
        assert(spaces[i] == v);
    }
}

/// A byte is read from what it is written as in decimal, with or without a plus sign or
/// zeros in front; a number that is too large, or anything but digits, is no byte.
pub proof fn law_byte_reads_back(n: nat, s: Seq<char>)
    ensures
        n <= 255 ==> byte_text_value(nat_text(n)) == Some(n as u8),
        n > 255 ==> byte_text_value(nat_text(n)) is None,
        s.len() > 0 && s[0] != '+' ==> byte_text_value(seq!['+'] + s) == byte_text_value(s),
        s.len() > 0 && s[0] != '+' ==> byte_text_value(seq!['0'] + s) == byte_text_value(s),
        (exists|k: int|
            0 < k < s.len() && !(48 <= #[trigger] s[k] as int <= 57)) ==> byte_text_value(s) is None,
        s.len() == 0 ==> byte_text_value(s) is None,
{
    lemma_digits_read_back(n);
    assert(48 <= nat_text(n)[0] as int <= 57);
    if s.len() > 0 && s[0] != '+' {
        assert((seq!['+'] + s).drop_first() =~= s);
        let longer = seq!['0'] + s;
        lemma_zero_in_front(s);
        if all_digits(s) {
            assert(all_digits(longer));
        } else {
            let k = choose|k: int| 0 <= k < s.len() && !(48 <= #[trigger] s[k] as int <= 57);
            assert(longer[k + 1] == s[k]);
        }
    }
    if exists|k: int| 0 < k < s.len() && !(48 <= #[trigger] s[k] as int <= 57) {
        let k = choose|k: int| 0 < k < s.len() && !(48 <= #[trigger] s[k] as int <= 57);
        if s[0] == '+' {
            assert(s.drop_first()[k - 1] == s[k]);
        }
    }
}

proof fn lemma_zero_in_front(s: Seq<char>)
    ensures
        digits_value(seq!['0'] + s) == digits_value(s),
    decreases s.len(),
{
    let longer = seq!['0'] + s;
    if s.len() > 0 {
        lemma_zero_in_front(s.drop_last());
        assert(longer.drop_last() =~= seq!['0'] + s.drop_last());
    } else {
        assert(longer.drop_last() =~= Seq::empty());
        reveal_with_fuel(digits_value, 2);
    }
}

/// The texts of words are those of each of them, in order.
pub proof fn law_texts_are_those_of_the_words(words: Seq<String>, i: int)
    ensures
        texts(words).len() == words.len(),
        0 <= i < words.len() ==> texts(words)[i] == words[i]@,
{
}

} // verus!
