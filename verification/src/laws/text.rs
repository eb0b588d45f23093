//! Laws on texts: white space, numerals, and how long a text is.

use vstd::prelude::*;
use vstd::utf8::*;
use crate::text::{
    byte_len, decimal, digit_char, is_alnum, is_control, is_name_char, is_white, trim_end,
    trim_start, trimmed,
};

verus! {

/// The texts between which white space is left out: all of it stands outside, none at the ends.
pub open spec fn is_core(s: Seq<char>, from: int, to: int) -> bool {
    &&& 0 <= from <= to <= s.len()
    &&& forall|i: int| 0 <= i < from ==> is_white(#[trigger] s[i])
    &&& forall|i: int| to <= i < s.len() ==> is_white(#[trigger] s[i])
    &&& from < to ==> !is_white(s[from]) && !is_white(s[to - 1])
}

proof fn lemma_start(s: Seq<char>) -> (from: int)
    ensures
        0 <= from <= s.len(),
        trim_start(s) == s.skip(from),
        forall|i: int| 0 <= i < from ==> is_white(#[trigger] s[i]),
        from < s.len() ==> !is_white(s[from]),
    decreases s.len(),
{
    if s.len() > 0 && is_white(s[0]) {
        let t = s.drop_first();
        let from = lemma_start(t) + 1;
        assert(t.skip(from - 1) =~= s.skip(from));
        assert forall|i: int| 0 <= i < from implies is_white(#[trigger] s[i]) by {
            if i > 0 {
                assert(s[i] == t[i - 1]);
            }
        }
        if from < s.len() {
            assert(s[from] == t[from - 1]);
        }
        from
    } else {
        assert(s.skip(0) =~= s);
        0
    }
}

proof fn lemma_end(s: Seq<char>) -> (to: int)
    ensures
        0 <= to <= s.len(),
        trim_end(s) == s.take(to),
        forall|i: int| to <= i < s.len() ==> is_white(#[trigger] s[i]),
        to > 0 ==> !is_white(s[to - 1]),
    decreases s.len(),
{
    if s.len() > 0 && is_white(s.last()) {
        let t = s.drop_last();
        let to = lemma_end(t);
        assert(t.take(to) =~= s.take(to));
        assert forall|i: int| to <= i < s.len() implies is_white(#[trigger] s[i]) by {
            if i < t.len() {
                assert(s[i] == t[i]);
            }
        }
        if to > 0 {
            assert(s[to - 1] == t[to - 1]);
        }
        to
    } else {
        assert(s.take(s.len() as int) =~= s);
        s.len() as int
    }
}

/// Trimming takes the white space off both ends, all of it and nothing else.
pub proof fn law_trimming_leaves_the_core(s: Seq<char>, from: int, to: int)
    ensures
        exists|from: int, to: int| #[trigger]
            is_core(s, from, to) && trimmed(s) == s.subrange(from, to),
        is_core(s, from, to) ==> trimmed(s) == s.subrange(from, to),
        trimmed(s).len() == 0 <==> (forall|i: int| 0 <= i < s.len() ==> is_white(#[trigger] s[i])),
{
    let a = lemma_start(s);
    let t = s.skip(a);
    let n = lemma_end(t);
    let b = a + n;
    assert(t.take(n) =~= s.subrange(a, b));
    assert forall|i: int| b <= i < s.len() implies is_white(#[trigger] s[i]) by {
        assert(s[i] == t[i - a]);
    }
    if a < b {
        assert(s[a] == t[0]);
        assert(s[b - 1] == t[n - 1]);
    }
    assert(is_core(s, a, b));
    if is_core(s, from, to) {
        if from < to {
            assert(from >= a) by {
                if from < a {
                    assert(is_white(s[from]));
                }
            }
            assert(from <= a) by {
                if a < from {
                    assert(is_white(s[a]));
                }
            }
            assert(to <= b) by {
                if b < to {
                    assert(is_white(s[to - 1]));
                }
            }
            assert(b <= to) by {
                if to < b {
                    assert(is_white(s[b - 1]));
                }
            }
        } else {
            if a < b {
                assert(is_white(s[a]));
            }
            assert(s.subrange(a, b) =~= s.subrange(from, to));
        }
    }
    if a == b {
        assert forall|i: int| 0 <= i < s.len() implies is_white(#[trigger] s[i]) by {}
    }
}

/// White space is what Unicode calls so.
pub proof fn law_white_space(c: char)
    ensures
        is_white(c) <==> (c == ' ' || c == '\t' || c == '\n' || c == '\r' || c == '\u{b}' || c
            == '\u{c}' || c == '\u{85}' || c == '\u{a0}' || c == '\u{1680}' || '\u{2000}' <= c
            <= '\u{200a}' || c == '\u{2028}' || c == '\u{2029}' || c == '\u{202f}' || c
            == '\u{205f}' || c == '\u{3000}'),
        is_alnum(c) ==> !is_white(c) && !is_control(c),
{
}

/// Control characters are those below the space, the delete character, and the block that follows
/// it.
pub proof fn law_control_characters(c: char)
    ensures
        is_control(c) <==> c < ' ' || '\u{7f}' <= c <= '\u{9f}',
{
}

/// Names are made of the letters and digits of ASCII, and four marks.
pub proof fn law_name_characters(c: char)
    ensures
        is_alnum(c) <==> 'a' <= c <= 'z' || 'A' <= c <= 'Z' || '0' <= c <= '9',
        is_name_char(c) <==> 'a' <= c <= 'z' || 'A' <= c <= 'Z' || '0' <= c <= '9' || c == '.' || c
            == '_' || c == ':' || c == '-',
{
}

/// The number that a numeral reads as.
pub open spec fn number_read(s: Seq<char>) -> int
    decreases s.len(),
{
    if s.len() == 0 {
        0
    } else {
        10 * number_read(s.drop_last()) + (s.last() as int - '0' as int)
    }
}

/// A numeral reads as the number it was written for; it is made of digits, and begins with zero only
/// where it is zero.
pub proof fn law_numerals_read_back(n: nat)
    ensures
        number_read(decimal(n)) == n,
        decimal(n).len() > 0,
        forall|i: int| 0 <= i < decimal(n).len() ==> '0' <= #[trigger] decimal(n)[i] <= '9',
        n > 0 ==> decimal(n)[0] != '0',
    decreases n,
{
    let s = decimal(n);
    if n < 10 {
        assert(s =~= seq![digit_char(n)]);
        assert(s.drop_last() =~= Seq::<char>::empty());
        assert(s.last() == digit_char(n));
        assert(number_read(s.drop_last()) == 0);
    } else {
        law_numerals_read_back(n / 10);
        let head = decimal(n / 10);
        assert(s =~= head.push(digit_char(n % 10)));
        assert(s.drop_last() =~= head);
        assert(s.last() == digit_char(n % 10));
        assert(s[0] == head[0]);
        assert forall|i: int| 0 <= i < s.len() implies '0' <= #[trigger] s[i] <= '9' by {
            if i < head.len() {
                assert(s[i] == head[i]);
            }
        }
    }
}

/// A text of ASCII takes a byte for each character.
pub proof fn law_ascii_takes_a_byte_each(s: Seq<char>)
    requires
        forall|i: int| 0 <= i < s.len() ==> '\0' <= #[trigger] s[i] <= '\u{7f}',
    ensures
        byte_len(s) == s.len(),
{
    assert(is_ascii_chars(s));
    is_ascii_chars_encode_utf8(s);
}

/// The bytes that a character takes, by where it stands in Unicode.
pub open spec fn bytes_taken(c: char) -> int {
    let n = c as u32;
    if n <= 0x7F {
        1
    } else if n <= 0x7FF {
        2
    } else if n <= 0xFFFF {
        3
    } else {
        4
    }
}

/// The first character takes between one byte and four, and the rest what it takes by itself.
pub proof fn law_bytes_of_characters(s: Seq<char>)
    requires
        s.len() > 0,
    ensures
        byte_len(s) == bytes_taken(s[0]) + byte_len(s.drop_first()),
        byte_len(Seq::<char>::empty()) == 0,
{
    char_is_scalar(s[0]);
}

} // verus!
