//! The tokenizer: trimmed, non-blank lines, and the key and value of a line.
//!
//! Every result is a slice of the input; nothing is copied. The contracts speak of the
//! characters of a text, `text@`, and of the spec functions of this module.
use crate::slice::split_first_char;
use crate::slice::split_last_char;
use crate::slice::split_once_ascii;
use vstd::prelude::*;
use vstd::string::StringSliceAdditionalSpecFns;
use vstd::utf8::encode_utf8_decode_utf8;

verus! {

/// The character that ends a line.
pub const LINE_END: char = '\n';

/// The character that may stand before the one that ends a line, as a part of the line's end.
pub const CARRIAGE_RETURN: char = '\r';

/// The character that parts a key from its value.
pub const ASSIGN: char = '=';

/// Whether `c` is white space: the code points with the Unicode property `White_Space`.
pub open spec fn is_whitespace(c: char) -> bool {
    let u = c as u32;
    ||| 0x09 <= u <= 0x0D
    ||| u == 0x20
    ||| u == 0x85
    ||| u == 0xA0
    ||| u == 0x1680
    ||| 0x2000 <= u <= 0x200A
    ||| u == 0x2028
    ||| u == 0x2029
    ||| u == 0x202F
    ||| u == 0x205F
    ||| u == 0x3000
}

/// `s` without its leading white space.
pub open spec fn trim_start(s: Seq<char>) -> Seq<char>
    decreases s.len(),
{
    if s.len() > 0 && is_whitespace(s.first()) {
        trim_start(s.drop_first())
    } else {
        s
    }
}

/// `s` without its trailing white space.
pub open spec fn trim_end(s: Seq<char>) -> Seq<char>
    decreases s.len(),
{
    if s.len() > 0 && is_whitespace(s.last()) {
        trim_end(s.drop_last())
    } else {
        s
    }
}

/// `s` without its leading and trailing white space.
pub open spec fn trim(s: Seq<char>) -> Seq<char> {
    trim_end(trim_start(s))
}

/// What stands before and after the first `delimiter` of `s`, if `s` holds one.
pub open spec fn split_once(s: Seq<char>, delimiter: char) -> Option<(Seq<char>, Seq<char>)> {
    match s.index_of_first(delimiter) {
        Some(at) => Some((s.take(at), s.skip(at + 1))),
        None => None,
    }
}

/// The line `line` as the tokenizer keeps it: dropped where it holds nothing but white space.
pub open spec fn non_blank(line: Seq<char>) -> Seq<Seq<char>> {
    if trim(line).len() == 0 {
        Seq::empty()
    } else {
        seq![line]
    }
}

/// What stands before a line feed, as a line: without the carriage return at its end, if it
/// has one there.
pub open spec fn without_line_end(head: Seq<char>) -> Seq<char> {
    if head.len() > 0 && head.last() == CARRIAGE_RETURN {
        head.drop_last()
    } else {
        head
    }
}

/// The lines of `text` that are not blank, as they stand in the text and in its order. A
/// line ends at a line feed, at a carriage return followed by a line feed, or at the end of
/// the text; what ends it is no part of it.
pub open spec fn non_blank_lines(text: Seq<char>) -> Seq<Seq<char>>
    decreases text.len(),
{
    match split_once(text, LINE_END) {
        Some((head, tail)) => {
            proof {
                text.index_of_first_ensures(LINE_END);
            }
            non_blank(without_line_end(head)) + non_blank_lines(tail)
        },
        None => non_blank(text),
    }
}

/// The key and the value of `line`: what stands before and after its first `=`, each
/// trimmed. `None` where the line holds no `=`.
pub open spec fn key_value(line: Seq<char>) -> Option<(Seq<char>, Seq<char>)> {
    match split_once(line, ASSIGN) {
        Some((key, value)) => Some((trim(key), trim(value))),
        None => None,
    }
}

/// A text that parts into `head`, one `delimiter` and `tail`, with no `delimiter` in
/// `head`, splits into `head` and `tail`.
pub proof fn lemma_split_once_parts(
    s: Seq<char>,
    delimiter: char,
    head: Seq<char>,
    tail: Seq<char>,
)
    requires
        !head.contains(delimiter),
        s == head.push(delimiter) + tail,
    ensures
        split_once(s, delimiter) == Some((head, tail)),
{
    s.index_of_first_ensures(delimiter);
    let at = head.len() as int;
    assert(s[at] == delimiter);
    match s.index_of_first(delimiter) {
        Some(i) => {
            if i < at {
                assert(head[i] == s[i]);
            }
            assert(i == at);
            assert(s.take(at) =~= head);
            assert(s.skip(at + 1) =~= tail);
        },
        None => {},
    }
}

/// A text without `delimiter` does not split.
pub proof fn lemma_split_once_none(s: Seq<char>, delimiter: char)
    requires
        !s.contains(delimiter),
    ensures
        split_once(s, delimiter) is None,
{
    s.index_of_first_ensures(delimiter);
}

/// Whether two texts hold the same characters.
pub fn str_eq(a: &str, b: &str) -> (r: bool)
    ensures
        r == (a@ == b@),
{
    let x = a.as_bytes();
    let y = b.as_bytes();
    if x.len() != y.len() {
        return false;
    }
    let mut i: usize = 0;
    while i < x.len()
        invariant
            i <= x@.len(),
            x@.len() == y@.len(),
            x@ == a.spec_bytes(),
            y@ == b.spec_bytes(),
            forall|j: int| 0 <= j < i ==> x@[j] == y@[j],
        decreases x@.len() - i,
    {
        if x[i] != y[i] {
            return false;
        }
        i += 1;
    }
    proof {
        assert(x@ =~= y@);
        encode_utf8_decode_utf8(a@);
        encode_utf8_decode_utf8(b@);
    }
    true
}

/// Whether `c` is white space.
pub fn char_is_whitespace(c: char) -> (r: bool)
    ensures
        r == is_whitespace(c),
{
    let u: u32 = c as u32;
    (0x09 <= u && u <= 0x0D) || u == 0x20 || u == 0x85 || u == 0xA0 || u == 0x1680 || (0x2000 <= u
        && u <= 0x200A) || u == 0x2028 || u == 0x2029 || u == 0x202F || u == 0x205F || u == 0x3000
}

/// `text` without its leading and trailing white space, as a slice of `text`.
pub fn trim_whitespace<'a>(text: &'a str) -> (r: &'a str)
    ensures
        r@ == trim(text@),
{
    let mut rest = text;
    loop
        invariant
            trim_start(rest@) == trim_start(text@),
        ensures
            rest@ == trim_start(text@),
        decreases rest@.len(),
    {
        match split_first_char(rest) {
            Some((first, tail)) => {
                if !char_is_whitespace(first) {
                    break ;
                }
                rest = tail;
            },
            None => {
                break ;
            },
        }
    }
    loop
        invariant
            trim_end(rest@) == trim(text@),
        ensures
            rest@ == trim(text@),
        decreases rest@.len(),
    {
        match split_last_char(rest) {
            Some((head, last)) => {
                if !char_is_whitespace(last) {
                    break ;
                }
                rest = head;
            },
            None => {
                break ;
            },
        }
    }
    rest
}

/// A line of a text that is not blank.
#[derive(Debug, Clone, Copy)]
pub struct Line<'a> {
    /// The line as it stands in the text, without the line feed, or the carriage return and
    /// the line feed, that ends it.
    pub raw: &'a str,
    /// The line without its leading and trailing white space.
    pub trimmed: &'a str,
}

/// The non-blank lines of a text that are still to come.
///
/// A cursor over the input: it holds no more than the part of the text not yet read, it
/// can be copied to start over from the same place, and it comes to an end with the text.
#[derive(Debug, Clone, Copy)]
pub struct Lines<'a> {
    rest: Option<&'a str>,
}

impl<'a> View for Lines<'a> {
    type V = Seq<Seq<char>>;

    /// The lines that are still to come, as they stand in the text.
    closed spec fn view(&self) -> Seq<Seq<char>> {
        match self.rest {
            Some(text) => non_blank_lines(text@),
            None => Seq::empty(),
        }
    }
}

impl<'a> Lines<'a> {
    /// The next line, raw and trimmed, or `None` when no line is left.
    pub fn next(&mut self) -> (r: Option<Line<'a>>)
        ensures
            match r {
                Some(line) => {
                    &&& old(self)@.len() > 0
                    &&& line.raw@ == old(self)@.first()
                    &&& line.trimmed@ == trim(line.raw@)
                    &&& line.trimmed@.len() > 0
                    &&& final(self)@ == old(self)@.drop_first()
                },
                None => old(self)@.len() == 0 && final(self)@.len() == 0,
            },
    {
        loop
            invariant
                self@ == old(self)@,
            decreases
                    match self.rest {
                        Some(text) => text@.len() + 1,
                        None => 0,
                    },
        {
            let text = match self.rest {
                Some(text) => text,
                None => {
                    return None;
                },
            };
            let raw = match split_once_ascii(text, LINE_END) {
                Some((head, tail)) => {
                    proof {
                        lemma_split_once_parts(text@, LINE_END, head@, tail@);
                    }
                    self.rest = Some(tail);
                    match split_last_char(head) {
                        Some((line, last)) => if last == CARRIAGE_RETURN {
                            line
                        } else {
                            head
                        },
                        None => head,
                    }
                },
                None => {
                    proof {
                        lemma_split_once_none(text@, LINE_END);
                    }
                    self.rest = None;
                    text
                },
            };
            let trimmed = trim_whitespace(raw);
            if !trimmed.is_empty() {
                proof {
                    assert(old(self)@ =~= seq![raw@] + self@);
                    assert(old(self)@.drop_first() =~= self@);
                }
                return Some(Line { raw, trimmed });
            }
            assert(old(self)@ =~= Seq::<Seq<char>>::empty() + self@);
        }
    }
}

/// The non-blank lines of `text`, in order, each as it stands in the text and trimmed.
pub fn non_blank_trimmed_lines<'a>(text: &'a str) -> (r: Lines<'a>)
    ensures
        r@ == non_blank_lines(text@),
{
    Lines { rest: Some(text) }
}

/// Splits a line at its first `=` into key and value, each trimmed. `None` where the line
/// holds no `=`.
pub fn parse_line<'a>(line: &'a str) -> (r: Option<(&'a str, &'a str)>)
    ensures
        match r {
            Some((key, value)) => key_value(line@) == Some((key@, value@)),
            None => key_value(line@) is None,
        },
{
    match split_once_ascii(line, ASSIGN) {
        Some((key, value)) => {
            proof {
                lemma_split_once_parts(line@, ASSIGN, key@, value@);
            }
            Some((trim_whitespace(key), trim_whitespace(value)))
        },
        None => {
            proof {
                lemma_split_once_none(line@, ASSIGN);
            }
            None
        },
    }
}

/// `part` stands in `whole`: it is what `whole` holds from one place to another.
pub open spec fn is_part(part: Seq<char>, whole: Seq<char>) -> bool {
    exists|from: int, to: int|
        0 <= from <= to <= whole.len() && part == #[trigger] whole.subrange(from, to)
}

/// What stands in a part of a text stands in the text.
pub proof fn lemma_part_of_part(inner: Seq<char>, middle: Seq<char>, outer: Seq<char>)
    requires
        is_part(inner, middle),
        is_part(middle, outer),
    ensures
        is_part(inner, outer),
{
    let (a, b) = choose|a: int, b: int|
        0 <= a <= b <= middle.len() && inner == #[trigger] middle.subrange(a, b);
    let (c, d) = choose|c: int, d: int|
        0 <= c <= d <= outer.len() && middle == #[trigger] outer.subrange(c, d);
    assert(inner =~= outer.subrange(c + a, c + b));
}

/// A text without its leading white space stands in the text.
pub proof fn lemma_trim_start_is_part(s: Seq<char>)
    ensures
        is_part(trim_start(s), s),
    decreases s.len(),
{
    assert(s =~= s.subrange(0, s.len() as int));
    if s.len() > 0 {
        lemma_trim_start_is_part(s.drop_first());
        assert(s.drop_first() =~= s.subrange(1, s.len() as int));
        lemma_part_of_part(trim_start(s.drop_first()), s.drop_first(), s);
    }
}

/// A text without its trailing white space stands in the text.
pub proof fn lemma_trim_end_is_part(s: Seq<char>)
    ensures
        is_part(trim_end(s), s),
    decreases s.len(),
{
    assert(s =~= s.subrange(0, s.len() as int));
    if s.len() > 0 {
        lemma_trim_end_is_part(s.drop_last());
        assert(s.drop_last() =~= s.subrange(0, s.len() - 1));
        lemma_part_of_part(trim_end(s.drop_last()), s.drop_last(), s);
    }
}

/// A trimmed text stands in the text that was trimmed.
pub proof fn lemma_trim_is_part(s: Seq<char>)
    ensures
        is_part(trim(s), s),
{
    lemma_trim_start_is_part(s);
    lemma_trim_end_is_part(trim_start(s));
    lemma_part_of_part(trim(s), trim_start(s), s);
}

/// What stands before and after the first delimiter of a text stands in the text.
pub proof fn lemma_split_once_is_part(s: Seq<char>, delimiter: char)
    ensures
        split_once(s, delimiter) matches Some((head, tail)) ==> is_part(head, s) && is_part(
            tail,
            s,
        ) && tail.len() < s.len(),
{
    s.index_of_first_ensures(delimiter);
    if let Some(at) = s.index_of_first(delimiter) {
        assert(s.take(at) =~= s.subrange(0, at));
        assert(s.skip(at + 1) =~= s.subrange(at + 1, s.len() as int));
    }
}

/// Every line that the tokenizer hands out stands in the text and is not blank.
pub proof fn lemma_lines_are_parts(text: Seq<char>)
    ensures
        forall|i: int|
            0 <= i < non_blank_lines(text).len() ==> is_part(
                #[trigger] non_blank_lines(text)[i],
                text,
            ) && trim(non_blank_lines(text)[i]).len() > 0,
    decreases text.len(),
{
    lemma_split_once_is_part(text, LINE_END);
    match split_once(text, LINE_END) {
        Some((head, tail)) => {
            lemma_lines_are_parts(tail);
            let line = without_line_end(head);
            assert(is_part(line, head)) by {
                assert(head =~= head.subrange(0, head.len() as int));
                if head.len() > 0 {
                    assert(head.drop_last() =~= head.subrange(0, head.len() - 1));
                }
            }
            lemma_part_of_part(line, head, text);
            assert forall|i: int| 0 <= i < non_blank_lines(text).len() implies is_part(
                #[trigger] non_blank_lines(text)[i],
                text,
            ) && trim(non_blank_lines(text)[i]).len() > 0 by {
                let first = non_blank(line);
                if i < first.len() {
                    assert(non_blank_lines(text)[i] == line);
                } else {
                    assert(non_blank_lines(text)[i] == non_blank_lines(tail)[i - first.len()]);
                    lemma_part_of_part(non_blank_lines(tail)[i - first.len()], tail, text);
                }
            }
        },
        None => {
            assert(text =~= text.subrange(0, text.len() as int));
        },
    }
}

/// What a text does not hold, no part of it holds.
pub proof fn lemma_part_holds_no_more(part: Seq<char>, whole: Seq<char>, c: char)
    requires
        is_part(part, whole),
        !whole.contains(c),
    ensures
        !part.contains(c),
{
    let (from, to) = choose|from: int, to: int|
        0 <= from <= to <= whole.len() && part == #[trigger] whole.subrange(from, to);
    if part.contains(c) {
        let i = choose|i: int| 0 <= i < part.len() && part[i] == c;
        assert(whole[from + i] == c);
    }
}

/// The key and the value of a line stand in the line.
pub proof fn lemma_key_value_is_part(line: Seq<char>)
    ensures
        key_value(line) matches Some((key, value)) ==> is_part(key, line) && is_part(value, line),
{
    lemma_split_once_is_part(line, ASSIGN);
    if let Some((key, value)) = split_once(line, ASSIGN) {
        lemma_trim_is_part(key);
        lemma_trim_is_part(value);
        lemma_part_of_part(trim(key), key, line);
        lemma_part_of_part(trim(value), value, line);
    }
}

/// A text that begins with a line and a line feed has that line, unless it is blank, as its
/// first line; the lines of what follows come after it.
pub proof fn lemma_first_line(line: Seq<char>, rest: Seq<char>)
    requires
        !line.contains(LINE_END),
    ensures
        non_blank_lines(line.push(LINE_END) + rest) == non_blank(without_line_end(line))
            + non_blank_lines(rest),
{
    lemma_split_once_parts(line.push(LINE_END) + rest, LINE_END, line, rest);
}

/// A text without a line feed is its own and only line.
pub proof fn lemma_last_line(line: Seq<char>)
    requires
        !line.contains(LINE_END),
    ensures
        non_blank_lines(line) == non_blank(line),
{
    lemma_split_once_none(line, LINE_END);
}

} // verus!
