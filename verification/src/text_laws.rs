//! Laws of numbers and texts.

use crate::text::{
    decimal, digit, is_white, lowered, number, occurs, occurs_at, padded, parsed_u32, trimmed,
    unsigned_part,
};
use vstd::prelude::*;

verus! {

/// Whether a text is made of decimal digits.
pub open spec fn all_digits(s: Seq<char>) -> bool {
    forall|i: int| 0 <= i < s.len() ==> '0' <= #[trigger] s[i] <= '9'
}

/// Digits count by their place: one more digit makes ten of what was there before, and no digits
/// stand for nothing.
pub proof fn law_digits_count_by_place(s: Seq<char>, c: char)
    requires
        '0' <= c <= '9',
    ensures
        number(Seq::<char>::empty()) == 0,
        number(s.push(c)) == 10 * number(s) + (c as u32 - '0' as u32),
{
    assert(s.push(c).drop_last() =~= s);
}

/// A number is written in digits that stand for it, with no zero in front.
pub proof fn law_a_written_number_reads_back(n: nat)
    ensures
        decimal(n).len() > 0,
        all_digits(decimal(n)),
        number(decimal(n)) == n,
        decimal(n).len() > 1 ==> decimal(n)[0] != '0',
    decreases n,
{
    if n < 10 {
        let c = digit(n);
        assert(c as u32 == '0' as u32 + n);
        law_digits_count_by_place(Seq::empty(), c);
        assert(decimal(n) =~= Seq::<char>::empty().push(c));
    } else {
        let c = digit(n % 10);
        assert(c as u32 == '0' as u32 + n % 10);
        law_a_written_number_reads_back(n / 10);
        law_digits_count_by_place(decimal(n / 10), c);
        if n / 10 < 10 {
            assert(decimal(n / 10)[0] as u32 == '0' as u32 + n / 10);
        } else {
            lemma_two_digits(n / 10);
        }
        assert(decimal(n)[0] == decimal(n / 10)[0]);
    }
}

proof fn lemma_two_digits(n: nat)
    requires
        n >= 10,
    ensures
        decimal(n).len() > 1,
{
    assert(decimal(n / 10).len() > 0);
}

/// A number that is filled up with zeros still stands for itself, has at least the wanted digits,
/// and more than those only where it needs them.
pub proof fn law_a_padded_number(n: nat, width: nat)
    ensures
        all_digits(padded(n, width)),
        number(padded(n, width)) == n,
        padded(n, width).len() >= width,
        padded(n, width).len() > width && padded(n, width).len() > 1 ==> padded(n, width)[0] != '0',
{
    law_a_written_number_reads_back(n);
    crate::converter_laws::law_padded_numbers_read_back(n, width);
}

/// A sequence of digits, with or without a plus sign, is read as the number that it stands for,
/// unless that takes more than 32 bits.
pub proof fn law_digits_are_read(d: Seq<char>)
    requires
        d.len() > 0,
        all_digits(d),
    ensures
        number(d) <= u32::MAX ==> parsed_u32(d) == Some(number(d) as u32),
        number(d) <= u32::MAX ==> parsed_u32(seq!['+'] + d) == Some(number(d) as u32),
        number(d) > u32::MAX ==> parsed_u32(d) is None,
        number(d) > u32::MAX ==> parsed_u32(seq!['+'] + d) is None,
{
    assert(unsigned_part(d) == d);
    assert(unsigned_part(seq!['+'] + d) =~= d);
}

/// Whatever is not made of digits, but for a plus sign in front, is read as no number. Nor is
/// nothing, or a plus sign alone.
pub proof fn law_other_texts_are_no_numbers(s: Seq<char>, i: int)
    requires
        0 <= i < s.len() && !('0' <= s[i] <= '9') && !(i == 0 && s[0] == '+') || s.len() == 0 || s
            == seq!['+'],
    ensures
        parsed_u32(s) is None,
{
    let d = unsigned_part(s);
    if s.len() > 0 && s != seq!['+'] {
        if s[0] == '+' {
            assert(d[i - 1] == s[i]);
        } else {
            assert(d[i] == s[i]);
        }
    }
}

/// Every number of 32 bits, written with zeros in front or without, is read back.
pub proof fn law_numbers_round_trip(n: u32, width: nat)
    ensures
        parsed_u32(padded(n as nat, width)) == Some(n),
{
    law_a_written_number_reads_back(n as nat);
    law_a_padded_number(n as nat, width);
    law_digits_are_read(padded(n as nat, width));
}

/// Trimming takes white space off both ends, all of it, and nothing else.
pub proof fn law_trimming(s: Seq<char>) -> (r: (int, int))
    ensures
        0 <= r.0 <= r.1 <= s.len(),
        trimmed(s) == s.subrange(r.0, r.1),
        forall|i: int| 0 <= i < r.0 ==> is_white(#[trigger] s[i]),
        forall|i: int| r.1 <= i < s.len() ==> is_white(#[trigger] s[i]),
        r.0 < r.1 ==> !is_white(s[r.0]) && !is_white(s[r.1 - 1]),
    decreases s.len(),
{
    if s.len() == 0 {
        assert(s =~= s.subrange(0, 0));
        (0, 0)
    } else if is_white(s[0]) {
        let t = s.drop_first();
        let (a, b) = law_trimming(t);
        assert(t.subrange(a, b) =~= s.subrange(a + 1, b + 1));
        assert forall|i: int| 0 <= i < a + 1 implies is_white(#[trigger] s[i]) by {
            if i > 0 {
                assert(t[i - 1] == s[i]);
            }
        }
        assert forall|i: int| b + 1 <= i < s.len() implies is_white(#[trigger] s[i]) by {
            assert(t[i - 1] == s[i]);
        }
        (a + 1, b + 1)
    } else if is_white(s.last()) {
        let t = s.drop_last();
        let (a, b) = law_trimming(t);
        assert(t.subrange(a, b) =~= s.subrange(a, b));
        assert forall|i: int| 0 <= i < a implies is_white(#[trigger] s[i]) by {
            assert(t[i] == s[i]);
        }
        assert forall|i: int| b <= i < s.len() implies is_white(#[trigger] s[i]) by {
            if i < t.len() {
                assert(t[i] == s[i]);
            }
        }
        (a, b)
    } else {
        assert(s =~= s.subrange(0, s.len() as int));
        (0, s.len() as int)
    }
}

/// White space is what Unicode says it is: of the ASCII characters the space and those from the tab
/// to the carriage return, and of the others the characters at these code points.
pub proof fn law_white_space(c: char)
    ensures
        c as u32 <= 127 ==> (is_white(c) <==> c == ' ' || '\t' <= c <= '\r'),
        c as u32 > 127 ==> (is_white(c) <==> {
            let p = c as u32;
            ||| p == 0x85 || p == 0xa0 || p == 0x1680
            ||| 0x2000 <= p <= 0x200a
            ||| p == 0x2028 || p == 0x2029 || p == 0x202f || p == 0x205f || p == 0x3000
        }),
{
}

/// A text that neither begins nor ends in white space is not changed by trimming, and is what is
/// left where the end of a line follows it.
pub proof fn law_the_end_of_a_line_is_trimmed(s: Seq<char>)
    requires
        s.len() > 0,
        '!' <= s[0] <= '~',
        '!' <= s.last() <= '~',
    ensures
        trimmed(s) == s,
        trimmed(s.push('\n')) == s,
        trimmed(s.push('\r').push('\n')) == s,
{
    assert(!is_white(s[0]) && !is_white(s.last()));
    assert(trimmed(s) == s);
    let one = s.push('\r');
    let two = one.push('\n');
    assert(s.push('\n').drop_last() =~= s);
    assert(s.push('\n')[0] == s[0]);
    assert(one.drop_last() =~= s);
    assert(one[0] == s[0] && one.last() == '\r');
    assert(two.drop_last() =~= one);
    assert(two[0] == s[0]);
    assert(trimmed(one) == s);
}

/// A text occurs in another one just where that is made of it and of something on either side.
pub proof fn law_occurring(hay: Seq<char>, needle: Seq<char>)
    ensures
        occurs(hay, needle) <==> exists|pre: Seq<char>, post: Seq<char>|
            #![trigger pre + needle + post]
            hay == pre + needle + post,
{
    if occurs(hay, needle) {
        let i = choose|i: int| occurs_at(hay, needle, i);
        let pre = hay.take(i);
        let post = hay.skip(i + needle.len());
        assert(hay =~= hay.take(i) + hay.subrange(i, i + needle.len()) + hay.skip(i + needle.len()));
        assert(hay == pre + needle + post);
    }
    assert forall|pre: Seq<char>, post: Seq<char>| hay == #[trigger] (pre + needle + post) implies occurs(
        hay,
        needle,
    ) by {
        assert(hay.subrange(pre.len() as int, (pre.len() + needle.len()) as int) =~= needle);
        assert(occurs_at(hay, needle, pre.len() as int));
    }
}

/// Lower case changes the letters from `A` to `Z` and nothing else.
pub proof fn law_lower_case(s: Seq<char>)
    ensures
        lowered(s).len() == s.len(),
        forall|i: int|
            #![trigger s[i]]
            #![trigger lowered(s)[i]]
            0 <= i < s.len() ==> lowered(s)[i] as u32 == if 'A' <= s[i] <= 'Z' {
                s[i] as u32 + 32
            } else {
                s[i] as u32 as int
            },
{
}

} // verus!
