//! What holds of trimming, cutting and searching texts, and of numbers that
//! are written and read.

use vstd::prelude::*;

use crate::text;

verus! {

// ---------------------------------------------------------------------------
// Trimming
// ---------------------------------------------------------------------------

/// The characters that Unicode counts as white space.
pub open spec fn white(c: char) -> bool {
    ||| '\t' <= c <= '\r'
    ||| c == ' '
    ||| c == '\u{85}'
    ||| c == '\u{a0}'
    ||| c == '\u{1680}'
    ||| '\u{2000}' <= c <= '\u{200a}'
    ||| c == '\u{2028}'
    ||| c == '\u{2029}'
    ||| c == '\u{202f}'
    ||| c == '\u{205f}'
    ||| c == '\u{3000}'
}

/// The same characters are dropped.
proof fn lemma_white(c: char)
    ensures
        white(c) == text::is_space(c),
{
}

/// A text that neither begins nor ends with white space is kept as it is.
pub proof fn law_tight_text_is_kept(s: Seq<char>)
    requires
        s.len() > 0 ==> !white(s[0]) && !white(s.last()),
    ensures
        text::trim(s) == s,
{
    if s.len() > 0 {
        lemma_white(s[0]);
        lemma_white(s.last());
    }
}

/// White space before or after a text makes no difference to what is left of it.
pub proof fn law_white_space_is_dropped(s: Seq<char>, c: char)
    requires
        white(c),
    ensures
        text::trim(s.push(c)) == text::trim(s),
        text::trim(seq![c] + s) == text::trim(s),
{
    assert(s.push(c).drop_last() =~= s);
    lemma_space_before(s, c);
    let t = text::trim_space_end(s);
    if t.len() > 0 {
        assert((seq![c] + t).drop_first() =~= t);
    }
}

/// White space before a text does not change where its end is.
proof fn lemma_space_before(s: Seq<char>, c: char)
    requires
        white(c),
    ensures
        text::trim_space_end(seq![c] + s) == (if text::trim_space_end(s).len() == 0 {
            Seq::empty()
        } else {
            seq![c] + text::trim_space_end(s)
        }),
    decreases s.len(),
{
    let wider = seq![c] + s;
    if s.len() == 0 {
        assert(wider.drop_last() =~= Seq::<char>::empty());
        assert(wider.last() == c);
        reveal_with_fuel(text::trim_space_end, 2);
    } else {
        assert(wider.last() == s.last());
        if text::is_space(s.last()) {
            lemma_space_before(s.drop_last(), c);
            assert(wider.drop_last() =~= seq![c] + s.drop_last());
        }
    }
}

/// The run of a character at the end of a text is dropped, and no more.
pub proof fn law_run_at_the_end_is_dropped(s: Seq<char>, c: char)
    ensures
        text::trim_end(s.push(c), c) == text::trim_end(s, c),
        s.len() == 0 || s.last() != c ==> text::trim_end(s, c) == s,
{
    assert(s.push(c).drop_last() =~= s);
}

/// The run of a character at the start of a text is dropped, and no more.
pub proof fn law_run_at_the_start_is_dropped(s: Seq<char>, c: char)
    ensures
        text::trim_start(seq![c] + s, c) == text::trim_start(s, c),
        s.len() == 0 || s[0] != c ==> text::trim_start(s, c) == s,
{
    assert((seq![c] + s).drop_first() =~= s);
}

// ---------------------------------------------------------------------------
// Cutting and searching
// ---------------------------------------------------------------------------

/// A text is cut at the first place where the character stands, and not at all
/// without it.
pub proof fn law_text_is_cut_at_the_first(a: Seq<char>, c: char, b: Seq<char>)
    requires
        !a.contains(c),
    ensures
        text::before(a + seq![c] + b, c) == a,
        text::after(a + seq![c] + b, c) == Some(b),
        text::before(a, c) == a,
        text::after(a, c) is None,
{
    let s = a + seq![c] + b;
    assert forall|j: int| 0 <= j < a.len() implies a[j] != c && s[j] != c by {
        assert(a.contains(a[j]));
        assert(s[j] == a[j]);
    }
    text::lemma_find(a, c, a.len() as int);
    text::lemma_find(s, c, a.len() as int);
    assert(s.take(a.len() as int) =~= a);
    assert(s.skip(a.len() as int + 1) =~= b);
    assert(a.take(a.len() as int) =~= a);
}

/// A text without the character is one piece; else what stands before the first
/// cut is the first piece, and the pieces of the rest follow.
pub proof fn law_pieces_are_what_was_joined(a: Seq<char>, c: char, rest: Seq<char>)
    requires
        !a.contains(c),
    ensures
        text::pieces(a, c) == seq![a],
        text::pieces(a + seq![c] + rest, c) == seq![a] + text::pieces(rest, c),
{
    text::lemma_pieces(a, c, rest);
}

/// A text that stands between two others is found in the whole, and one that
/// stands before another begins the whole.
pub proof fn law_parts_are_found(a: Seq<char>, part: Seq<char>, b: Seq<char>)
    ensures
        text::has(a + part + b, part),
        text::starts_with(part + b, part),
        text::find_text(a + part + b, part) is Some,
{
    let s = a + part + b;
    assert(s.subrange(a.len() as int, a.len() as int + part.len()) =~= part);
    assert(text::occurs_at(s, part, a.len() as int));
    assert((part + b).take(part.len() as int) =~= part);
    text::lemma_find_text_range(s, part);
}

/// Where a text has another in it, it is what stands before that, that, and
/// what stands after it; likewise where it begins with another.
pub proof fn law_found_parts_are_there(s: Seq<char>, part: Seq<char>)
    ensures
        text::has(s, part) ==> exists|a: Seq<char>, b: Seq<char>| s == #[trigger] (a + part + b),
        text::starts_with(s, part) ==> s == part + s.skip(part.len() as int),
        text::find_text(s, part) matches Some(k) ==> 0 <= k && k + part.len() <= s.len()
            && s.subrange(k, k + part.len()) == part,
        text::find_text(s, part) is None ==> !text::has(s, part),
{
    text::lemma_find_text_range(s, part);
    if text::has(s, part) {
        let i = choose|i: int| #[trigger] text::occurs_at(s, part, i);
        let a = s.take(i);
        let b = s.skip(i + part.len());
        assert(s =~= a + part + b) by {
            let w = s.subrange(i, i + part.len());
            assert forall|j: int| 0 <= j < part.len() implies s[i + j] == part[j] by {
                assert(w[j] == s[i + j]);
            }
        }
    }
    if text::starts_with(s, part) {
        assert(s =~= s.take(part.len() as int) + s.skip(part.len() as int));
    }
}

/// Lower case changes the capital letters of ASCII alone, each to the letter
/// thirty-two places further on.
pub proof fn law_lower_case_changes_capitals_alone(s: Seq<char>, i: int)
    requires
        0 <= i < s.len(),
    ensures
        text::lower(s).len() == s.len(),
        'A' <= s[i] <= 'Z' ==> text::lower(s)[i] as u32 == s[i] as u32 + 32,
        !('A' <= s[i] <= 'Z') ==> text::lower(s)[i] == s[i],
{
}

// ---------------------------------------------------------------------------
// Numbers
// ---------------------------------------------------------------------------

/// A number is written digit by digit, without zeros before it.
pub proof fn law_numbers_are_written_digit_by_digit(n: nat, d: nat)
    requires
        d < 10,
    ensures
        text::decimal(d).len() == 1,
        text::decimal(d)[0] as u32 == '0' as u32 + d,
        n > 0 ==> text::decimal(n * 10 + d) == text::decimal(n) + text::decimal(d),
        n > 0 ==> text::decimal(n)[0] != '0',
    decreases n,
{
    if n > 0 {
        assert((n * 10 + d) / 10 == n && (n * 10 + d) % 10 == d);
        assert(text::decimal(n * 10 + d) =~= text::decimal(n) + text::decimal(d));
        if n >= 10 {
            law_numbers_are_written_digit_by_digit(n / 10, 0);
            text::lemma_decimal(n / 10);
        }
    }
}

/// A negative number is written as its opposite after a minus sign.
pub proof fn law_negative_numbers_have_a_sign(i: int)
    ensures
        i >= 0 ==> text::decimal_int(i) == text::decimal(i as nat),
        i < 0 ==> text::decimal_int(i) == seq!['-'] + text::decimal((-i) as nat),
{
}

/// A number that is written is read back, with or without a plus sign; one that
/// does not fit is not.
pub proof fn law_written_number_is_read_back(n: nat)
    ensures
        n <= u64::MAX ==> text::parse_u64(text::decimal(n)) == Some(n as u64),
        n <= u64::MAX ==> text::parse_u64(seq!['+'] + text::decimal(n)) == Some(n as u64),
        n > u64::MAX ==> text::parse_u64(text::decimal(n)) is None,
{
    text::lemma_decimal(n);
    let s = text::decimal(n);
    assert(text::is_digit(s[0]));
    assert((seq!['+'] + s).drop_first() =~= s);
    assert((seq!['+'] + s).first() == '+');
}

/// The digits are the characters from `0` to `9`.
proof fn lemma_digit(c: char)
    ensures
        text::is_digit(c) == ('0' <= c <= '9'),
{
}

/// What is read as a number has decimal digits alone, after at most one plus
/// sign; and one more digit makes it ten times as much and the digit.
pub proof fn law_numbers_are_read_digit_by_digit(s: Seq<char>, c: char)
    requires
        text::parse_u64(s) is Some,
    ensures
        s.len() > 0,
        forall|i: int|
            0 <= i < s.len() ==> '0' <= #[trigger] s[i] <= '9' || (i == 0 && s[i] == '+' && s.len()
                > 1),
        '0' <= c <= '9' && text::parse_u64(s)->0 * 10 + (c as u32 - '0' as u32) <= u64::MAX
            ==> text::parse_u64(s.push(c)) == Some(
            (text::parse_u64(s)->0 * 10 + (c as u32 - '0' as u32)) as u64,
        ),
        !('0' <= c <= '9') ==> text::parse_u64(s.push(c)) is None,
{
    let d = if s.first() == '+' {
        s.drop_first()
    } else {
        s
    };
    assert forall|i: int| 0 <= i < s.len() implies '0' <= #[trigger] s[i] <= '9' || (i == 0 && s[i]
        == '+' && s.len() > 1) by {
        if s.first() == '+' {
            if i > 0 {
                assert(text::is_digit(d[i - 1]));
                lemma_digit(d[i - 1]);
            }
        } else {
            assert(text::is_digit(d[i]));
            lemma_digit(d[i]);
        }
    }
    let t = s.push(c);
    let e = if s.first() == '+' {
        t.drop_first()
    } else {
        t
    };
    assert(t.first() == s.first());
    assert(e =~= d.push(c));
    assert(e.drop_last() =~= d);
    assert(e.last() == c);
    if '0' <= c <= '9' {
        assert forall|i: int| 0 <= i < e.len() implies text::is_digit(#[trigger] e[i]) by {
            if i < d.len() {
                assert(e[i] == d[i]);
            }
        }
    } else {
        assert(!text::is_digit(e[e.len() - 1]));
    }
}

/// A number in hexadecimal has as many digits as asked for, each of the value
/// of its place.
pub proof fn law_hexadecimal_digits_have_their_places(n: nat, d: nat, k: nat)
    requires
        d < 16,
    ensures
        text::hex_digits(n * 16 + d, k + 1).len() == k + 1,
        text::hex_digits(n * 16 + d, k + 1).drop_last() == text::hex_digits(n, k),
        text::hex_digits(n * 16 + d, k + 1).last() as u32 == (if d < 10 {
            '0' as u32 + d
        } else {
            'a' as u32 + d - 10
        }),
        text::hex16(n as u64).len() == 16,
{
    assert((n * 16 + d) / 16 == n && (n * 16 + d) % 16 == d);
    text::lemma_hex_len(n * 16 + d, k + 1);
    text::lemma_hex_len((n as u64) as nat, 16);
    assert(text::hex_digits(n * 16 + d, k + 1).drop_last() =~= text::hex_digits(n, k));
}

} // verus!
