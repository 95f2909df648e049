//! Texts as they stand between the quotation marks of a JSON string.

use crate::text::chars_of;
use vstd::prelude::*;

verus! {

/// The lower-case hexadecimal digit `d`.
pub open spec fn hex_char(d: u32) -> char {
    if d < 10 {
        ((48 + d) as u32) as char
    } else {
        ((97 + d - 10) as u32) as char
    }
}

/// A character that stands between quotation marks as it is: no quotation mark, no backslash, no
/// control character.
pub open spec fn is_unescaped(c: char) -> bool {
    c != '"' && c != '\\' && c as u32 >= 0x20
}

/// A character as it stands between quotation marks.
pub open spec fn escaped_char(c: char) -> Seq<char> {
    if c == '"' {
        seq!['\\', '"']
    } else if c == '\\' {
        seq!['\\', '\\']
    } else if (c as u32) < 0x20 {
        seq!['\\', 'u', '0', '0', hex_char(c as u32 / 16), hex_char(c as u32 % 16)]
    } else {
        seq![c]
    }
}

/// A text as it stands between quotation marks.
pub open spec fn escaped(s: Seq<char>) -> Seq<char>
    decreases s.len(),
{
    if s.len() == 0 {
        seq![]
    } else {
        escaped_char(s[0]) + escaped(s.skip(1))
    }
}

/// A text that stands between quotation marks as it is.
pub open spec fn needs_no_escape(s: Seq<char>) -> bool {
    forall|i: int| 0 <= i < s.len() ==> is_unescaped(#[trigger] s[i])
}

/// The text of one hexadecimal digit.
fn hex_digit_text(d: u32) -> (r: &'static str)
    requires
        d < 16,
    ensures
        r@ == seq![hex_char(d)],
{
    proof {
        reveal_strlit("0");
        reveal_strlit("1");
        reveal_strlit("2");
        reveal_strlit("3");
        reveal_strlit("4");
        reveal_strlit("5");
        reveal_strlit("6");
        reveal_strlit("7");
        reveal_strlit("8");
        reveal_strlit("9");
        reveal_strlit("a");
        reveal_strlit("b");
        reveal_strlit("c");
        reveal_strlit("d");
        reveal_strlit("e");
        reveal_strlit("f");
    }
    match d {
        0 => "0",
        1 => "1",
        2 => "2",
        3 => "3",
        4 => "4",
        5 => "5",
        6 => "6",
        7 => "7",
        8 => "8",
        9 => "9",
        10 => "a",
        11 => "b",
        12 => "c",
        13 => "d",
        14 => "e",
        _ => "f",
    }
}

/// Appends the escape of a character that does not stand between quotation marks as it is.
fn append_escape(text: &mut String, c: char)
    requires
        !is_unescaped(c),
    ensures
        final(text)@ == old(text)@ + escaped_char(c),
{
    proof {
        reveal_strlit("\\\"");
        reveal_strlit("\\\\");
        reveal_strlit("\\u00");
    }
    if c == '"' {
        text.append("\\\"");
        assert(text@ =~= old(text)@ + escaped_char(c));
    } else if c == '\\' {
        text.append("\\\\");
        assert(text@ =~= old(text)@ + escaped_char(c));
    } else {
        let code: u32 = c as u32;
        text.append("\\u00");
        text.append(hex_digit_text(code / 16));
        text.append(hex_digit_text(code % 16));
        assert(text@ =~= old(text)@ + escaped_char(c));
    }
}

/// A text as it stands between the quotation marks of a JSON string: a quotation mark and a
/// backslash with a backslash before them, a control character by its number.
pub fn escaped_text(s: &str) -> (r: String)
    ensures
        r@ == escaped(s@),
{
    let chars = chars_of(s);
    let mut text = String::new();
    // The characters from `start` on stand as they are, and are appended all at once.
    let mut start: usize = 0;
    let mut i: usize = 0;
    assert(s@.take(0) =~= seq![]);
    assert(text@ + s@.subrange(0, 0) =~= seq![]);
    while i < chars.len()
        invariant
            chars@ == s@,
            start <= i <= chars@.len(),
            text@ + s@.subrange(start as int, i as int) == escaped(s@.take(i as int)),
        decreases chars.len() - i,
    {
        let c = chars[i];
        proof {
            assert(s@.take(i + 1) =~= s@.take(i as int) + seq![c]);
            lemma_escaped_concat(s@.take(i as int), seq![c]);
            lemma_escaped_one(c);
        }
        if c == '"' || c == '\\' || (c as u32) < 0x20 {
            text.append(s.substring_char(start, i));
            append_escape(&mut text, c);
            start = i + 1;
            assert(text@ + s@.subrange(i + 1, i + 1) =~= text@);
        } else {
            assert(text@ + s@.subrange(start as int, i + 1) =~= text@ + s@.subrange(
                start as int,
                i as int,
            ) + seq![c]);
        }
        i += 1;
    }
    text.append(s.substring_char(start, i));
    assert(s@.take(s@.len() as int) =~= s@);
    text
}

proof fn lemma_escaped_one(c: char)
    ensures
        escaped(seq![c]) == escaped_char(c),
{
    let rest = seq![c].skip(1);
    assert(escaped(rest) =~= seq![]);
    assert(escaped(seq![c]) =~= escaped_char(c));
}

/// A text is escaped part by part.
pub proof fn lemma_escaped_concat(a: Seq<char>, b: Seq<char>)
    ensures
        escaped(a + b) == escaped(a) + escaped(b),
    decreases a.len(),
{
    if a.len() == 0 {
        assert(a + b =~= b);
        assert(escaped(a) + escaped(b) =~= escaped(b));
    } else {
        assert((a + b).skip(1) =~= a.skip(1) + b);
        lemma_escaped_concat(a.skip(1), b);
        assert(escaped(a + b) =~= escaped(a) + escaped(b));
    }
}

/// A text without quotation marks, backslashes and control characters is escaped as it is.
pub proof fn law_plain_text_is_its_own_escape(s: Seq<char>)
    requires
        needs_no_escape(s),
    ensures
        escaped(s) == s,
    decreases s.len(),
{
    if s.len() > 0 {
        assert forall|i: int| 0 <= i < s.skip(1).len() implies is_unescaped(
            #[trigger] s.skip(1)[i],
        ) by {
            assert(s.skip(1)[i] == s[i + 1]);
        }
        law_plain_text_is_its_own_escape(s.skip(1));
        assert(is_unescaped(s[0]));
        assert(escaped(s) =~= s);
    } else {
        assert(escaped(s) =~= s);
    }
}

/// An escaped text holds no control character, whatever the text holds.
pub proof fn law_escaped_text_holds_no_control_character(s: Seq<char>)
    ensures
        forall|i: int| 0 <= i < escaped(s).len() ==> (#[trigger] escaped(s)[i]) as u32 >= 0x20,
    decreases s.len(),
{
    if s.len() > 0 {
        law_escaped_text_holds_no_control_character(s.skip(1));
        let first = escaped_char(s[0]);
        assert forall|i: int| 0 <= i < escaped(s).len() implies (#[trigger] escaped(s)[i]) as u32
            >= 0x20 by {
            if i < first.len() {
                assert(escaped(s)[i] == first[i]);
            } else {
                assert(escaped(s)[i] == escaped(s.skip(1))[i - first.len()]);
            }
        }
    }
}

proof fn lemma_hex_char_is_injective(a: u32, b: u32)
    requires
        a < 16,
        b < 16,
        hex_char(a) == hex_char(b),
    ensures
        a == b,
{
}

/// Of two characters, the escaped form of neither begins with that of the other.
proof fn lemma_no_escape_begins_another(a: char, b: char)
    requires
        forall|i: int|
            #![trigger escaped_char(a)[i]]
            0 <= i < escaped_char(a).len() && i < escaped_char(b).len() ==> escaped_char(a)[i]
                == escaped_char(b)[i],
    ensures
        a == b,
{
    let x = escaped_char(a);
    let y = escaped_char(b);
    assert(x[0] == y[0]);
    if x.len() > 1 && y.len() > 1 {
        assert(x[1] == y[1]);
        if x.len() == 6 && y.len() == 6 {
            assert(x[4] == y[4] && x[5] == y[5]);
            lemma_hex_char_is_injective(a as u32 / 16, b as u32 / 16);
            lemma_hex_char_is_injective(a as u32 % 16, b as u32 % 16);
            assert(a as u32 == b as u32);
        }
    }
}

/// Different texts have different escaped texts.
pub proof fn law_escaped_text_is_injective(a: Seq<char>, b: Seq<char>)
    requires
        escaped(a) == escaped(b),
    ensures
        a == b,
    decreases a.len(),
{
    if a.len() == 0 || b.len() == 0 {
        assert(a.len() > 0 ==> escaped(a).len() > 0);
        assert(b.len() > 0 ==> escaped(b).len() > 0);
        assert(a =~= b);
    } else {
        let x = escaped_char(a[0]);
        let y = escaped_char(b[0]);
        let s = escaped(a);
        assert(forall|i: int| 0 <= i < x.len() ==> s[i] == x[i]);
        assert(forall|i: int| 0 <= i < y.len() ==> s[i] == y[i]);
        assert forall|i: int| 0 <= i < x.len() && i < y.len() implies x[i] == y[i] by {
            assert(s[i] == x[i] && s[i] == y[i]);
        }
        lemma_no_escape_begins_another(a[0], b[0]);
        assert(s.skip(x.len() as int) =~= escaped(a.skip(1)));
        assert(s.skip(y.len() as int) =~= escaped(b.skip(1)));
        law_escaped_text_is_injective(a.skip(1), b.skip(1));
        assert(a =~= seq![a[0]] + a.skip(1));
        assert(b =~= seq![b[0]] + b.skip(1));
    }
}

/// The value of a hexadecimal digit.
pub open spec fn hex_value(c: char) -> int {
    if '0' <= c && c <= '9' {
        c as u32 - 48
    } else {
        c as u32 - 87
    }
}

/// What stands between the quotation marks of a JSON string, read: a backslash and a `u` stand for
/// the character of the number in the four digits after them, a backslash and another character for
/// that character, and any other character for itself.
pub open spec fn unescaped(s: Seq<char>) -> Seq<char>
    decreases s.len(),
{
    if s.len() == 0 {
        seq![]
    } else if s[0] != '\\' || s.len() == 1 {
        seq![s[0]] + unescaped(s.skip(1))
    } else if s[1] == 'u' && s.len() >= 6 {
        let code = 4096 * hex_value(s[2]) + 256 * hex_value(s[3]) + 16 * hex_value(s[4])
            + hex_value(s[5]);
        seq![(code as u32) as char] + unescaped(s.skip(6))
    } else {
        seq![s[1]] + unescaped(s.skip(2))
    }
}

/// An escaped text is read as the text, whatever it holds, and holds no quotation mark that ends it
/// early: each stands behind a backslash.
pub proof fn law_escaped_text_reads_back(s: Seq<char>)
    ensures
        unescaped(escaped(s)) == s,
        forall|i: int|
            0 <= i < escaped(s).len() && (#[trigger] escaped(s)[i]) == '"' ==> i > 0 && escaped(
                s,
            )[i - 1] == '\\',
    decreases s.len(),
{
    let text = escaped(s);
    if s.len() > 0 {
        let rest = s.skip(1);
        let first = escaped_char(s[0]);
        law_escaped_text_reads_back(rest);
        assert(text.skip(first.len() as int) =~= escaped(rest));
        assert(forall|i: int| 0 <= i < first.len() ==> text[i] == first[i]);
        lemma_first_reads_back(s[0], text);
        assert(s =~= seq![s[0]] + rest);
        assert forall|i: int| 0 <= i < text.len() && (#[trigger] text[i]) == '"' implies i > 0
            && text[i - 1] == '\\' by {
            if i < first.len() {
                assert(text[i] == first[i]);
                assert(text[0] == first[0]);
            } else {
                let j = i - first.len();
                assert(text[i] == escaped(rest)[j]);
                assert(j > 0);
                assert(text[i - 1] == escaped(rest)[j - 1]);
            }
        }
    } else {
        assert(unescaped(text) =~= s);
    }
}

proof fn lemma_first_reads_back(c: char, text: Seq<char>)
    requires
        text.len() >= escaped_char(c).len(),
        forall|i: int| 0 <= i < escaped_char(c).len() ==> text[i] == escaped_char(c)[i],
    ensures
        unescaped(text) == seq![c] + unescaped(text.skip(escaped_char(c).len() as int)),
{
    let first = escaped_char(c);
    assert(text[0] == first[0]);
    if first.len() == 6 {
        assert(text[1] == 'u' && text[2] == '0' && text[3] == '0');
        assert(text[4] == hex_char(c as u32 / 16) && text[5] == hex_char(c as u32 % 16));
        assert(hex_value(text[4]) == c as u32 / 16);
        assert(hex_value(text[5]) == c as u32 % 16);
        assert(16 * (c as u32 / 16) + c as u32 % 16 == c as u32);
    } else if first.len() == 2 {
        assert(text[1] == first[1]);
    }
}

} // verus!
