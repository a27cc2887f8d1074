//! Small operations on text that the rest of the toolkit shares.

use vstd::prelude::*;
use vstd::string::{StrSliceExecFns, StringExecFns, StringSliceAdditionalSpecFns};
use vstd::utf8::encode_utf8_decode_utf8;

verus! {

/// Whether two strings hold the same characters.
pub fn same_text(a: &str, b: &str) -> (same: bool)
    ensures
        same == (a@ == b@),
{
    let left = a.as_bytes();
    let right = b.as_bytes();
    if left.len() != right.len() {
        return false;
    }
    let mut i: usize = 0;
    while i < left.len()
        invariant
            i <= left.len(),
            left.len() == right.len(),
            left@ == a.spec_bytes(),
            right@ == b.spec_bytes(),
            forall|k: int| 0 <= k < i ==> left@[k] == right@[k],
        decreases left.len() - i,
    {
        if left[i] != right[i] {
            return false;
        }
        i += 1;
    }
    proof {
        assert(left@ =~= right@);
        encode_utf8_decode_utf8(a@);
        encode_utf8_decode_utf8(b@);
    }
    true
}

/// The character of the decimal digit `digit`.
pub open spec fn digit_char(digit: int) -> char {
    (0x30 + digit) as u8 as char
}

/// The digits of `value` in base ten, the most significant first, without leading zeros.
pub open spec fn digits(value: nat) -> Seq<char>
    decreases value,
{
    if value < 10 {
        seq![digit_char(value as int)]
    } else {
        digits(value / 10).push(digit_char(value as int % 10))
    }
}

/// `value` written in base ten, with a minus sign in front where it is negative.
pub open spec fn decimal(value: int) -> Seq<char> {
    if value < 0 {
        seq!['-'] + digits((-value) as nat)
    } else {
        digits(value as nat)
    }
}

/// `i64::to_string`: the number written in base ten, with a minus sign in
/// front where it is negative and without leading zeros.
#[verifier::external_body]
pub(crate) fn i64_text(value: i64) -> (text: String)
    ensures
        text@ == decimal(value as int),
{
    value.to_string()
}

/// The parts one after the other, with `separator` between neighbours.
pub open spec fn joined(parts: Seq<Seq<char>>, separator: Seq<char>) -> Seq<char>
    decreases parts.len(),
{
    if parts.len() == 0 {
        Seq::<char>::empty()
    } else if parts.len() == 1 {
        parts[0]
    } else {
        joined(parts.drop_last(), separator) + separator + parts.last()
    }
}

/// Joins the parts into one string, with `separator` between neighbours.
pub fn join(parts: &Vec<String>, separator: &str) -> (text: String)
    ensures
        text@ == joined(parts.deep_view(), separator@),
{
    let mut text = String::new();
    let mut i: usize = 0;
    while i < parts.len()
        invariant
            i <= parts.len(),
            text@ == joined(parts.deep_view().take(i as int), separator@),
        decreases parts.len() - i,
    {
        proof {
            let done = parts.deep_view().take(i as int);
            let next = parts.deep_view().take(i + 1);
            assert(next.drop_last() =~= done);
            assert(next.last() == parts@[i as int]@);
            if i == 0 {
                assert(Seq::<char>::empty() + parts@[0]@ =~= parts@[0]@);
            }
        }
        if i > 0 {
            text.append(separator);
        }
        text.append(parts[i].as_str());
        i += 1;
    }
    proof {
        assert(parts.deep_view().take(parts.len() as int) =~= parts.deep_view());
    }
    text
}

/// Whether `name` is one of `list`.
pub fn listed(list: &Vec<String>, name: &str) -> (found: bool)
    ensures
        found == list.deep_view().contains(name@),
{
    let mut i: usize = 0;
    while i < list.len()
        invariant
            i <= list.len(),
            forall|k: int| 0 <= k < i ==> list.deep_view()[k] != name@,
        decreases list.len() - i,
    {
        if same_text(list[i].as_str(), name) {
            assert(list.deep_view()[i as int] == name@);
            return true;
        }
        i += 1;
    }
    false
}

/// The test that a name passes when it is one of `list`, where `wanted`, and
/// when it is none of `list`, where not.
pub open spec fn among(list: Seq<Seq<char>>, wanted: bool) -> spec_fn(Seq<char>) -> bool {
    |name: Seq<char>| list.contains(name) == wanted
}

/// The items that are among `list`, or those that are not, in their order.
pub fn select(items: &Vec<String>, list: &Vec<String>, wanted: bool) -> (kept: Vec<String>)
    ensures
        kept.deep_view() == items.deep_view().filter(among(list.deep_view(), wanted)),
{
    let ghost all = items.deep_view();
    let ghost test = among(list.deep_view(), wanted);
    let mut kept: Vec<String> = Vec::new();
    let mut i: usize = 0;
    proof {
        reveal(Seq::filter);
        assert(all.take(0) =~= Seq::<Seq<char>>::empty());
        assert(kept.deep_view() =~= all.take(0).filter(test));
    }
    while i < items.len()
        invariant
            i <= items.len(),
            all == items.deep_view(),
            test == among(list.deep_view(), wanted),
            kept.deep_view() == all.take(i as int).filter(test),
        decreases items.len() - i,
    {
        let ghost before = kept.deep_view();
        proof {
            reveal(Seq::filter);
            assert(all.take(i + 1).drop_last() =~= all.take(i as int));
            assert(all.take(i + 1).last() == items@[i as int]@);
        }
        if listed(list, items[i].as_str()) == wanted {
            kept.push(items[i].clone());
            assert(kept.deep_view() =~= before.push(items@[i as int]@));
        }
        i += 1;
    }
    proof {
        assert(all.take(items.len() as int) =~= all);
    }
    kept
}

/// Whether `char::is_whitespace` holds of the character: whether Unicode
/// counts it as white space.
pub uninterp spec fn white_space(c: char) -> bool;

/// `char::is_whitespace`: whether Unicode counts the character as white space.
#[verifier::external_body]
fn is_whitespace(c: char) -> (white: bool)
    ensures
        white == white_space(c),
{
    c.is_whitespace()
}

/// The number of marks at the start of `marks` that are set.
pub open spec fn leading(marks: Seq<bool>) -> int
    decreases marks.len(),
{
    if marks.len() > 0 && marks[0] {
        1 + leading(marks.drop_first())
    } else {
        0
    }
}

/// The number of marks at the end of `marks` that are set.
pub open spec fn trailing(marks: Seq<bool>) -> int
    decreases marks.len(),
{
    if marks.len() > 0 && marks.last() {
        1 + trailing(marks.drop_last())
    } else {
        0
    }
}

/// `text` without the characters at its start and at its end that `white`
/// marks, where `white` has a mark for every character of `text`.
pub open spec fn stripped(text: Seq<char>, white: Seq<bool>) -> Seq<char> {
    text.subrange(leading(white), text.len() - trailing(white.skip(leading(white))))
}

/// For every character of `text`, whether it is white space.
pub open spec fn whiteness(text: Seq<char>) -> Seq<bool> {
    Seq::new(text.len(), |i: int| white_space(text[i]))
}

/// `text` without the white space at its start and at its end.
pub open spec fn trimmed(text: Seq<char>) -> Seq<char> {
    stripped(text, whiteness(text))
}

/// Whether `answer` is the letter y, small or capital, once the characters
/// at its start and at its end that `white` marks are taken off.
pub open spec fn yes_within(answer: Seq<char>, white: Seq<bool>) -> bool {
    white.len() == answer.len() && (stripped(answer, white) == seq!['y'] || stripped(answer, white)
        == seq!['Y'])
}

/// Whether an answer to a yes-or-no question says yes: the letter y, small or
/// capital, with nothing but white space around it.
pub open spec fn says_yes(answer: Seq<char>) -> bool {
    yes_within(answer, whiteness(answer))
}

proof fn lemma_leading(marks: Seq<bool>, start: int)
    requires
        0 <= start <= marks.len(),
        forall|k: int| 0 <= k < start ==> marks[k],
        start == marks.len() || !marks[start],
    ensures
        leading(marks) == start,
    decreases start,
{
    if start > 0 {
        assert(marks[0]);
        lemma_leading(marks.drop_first(), start - 1);
    }
}

proof fn lemma_trailing(marks: Seq<bool>, end: int)
    requires
        0 <= end <= marks.len(),
        forall|k: int| end <= k < marks.len() ==> marks[k],
        end == 0 || !marks[end - 1],
    ensures
        trailing(marks) == marks.len() - end,
    decreases marks.len() - end,
{
    if end < marks.len() {
        assert(marks.last());
        lemma_trailing(marks.drop_last(), end);
    }
}

/// Whether an answer says yes, where `white` marks its white space.
pub fn is_yes_within(answer: &str, white: &Vec<bool>) -> (yes: bool)
    ensures
        yes == yes_within(answer@, white@),
{
    let length = answer.unicode_len();
    if white.len() != length {
        return false;
    }
    let mut start: usize = 0;
    while start < length && white[start]
        invariant
            length == white@.len(),
            start <= length,
            forall|k: int| 0 <= k < start ==> white@[k],
        decreases length - start,
    {
        start += 1;
    }
    let mut end: usize = length;
    while end > start && white[end - 1]
        invariant
            length == white@.len(),
            start <= end <= length,
            forall|k: int| end <= k < length ==> white@[k],
        decreases end,
    {
        end -= 1;
    }
    proof {
        let rest = white@.skip(start as int);
        lemma_leading(white@, start as int);
        lemma_trailing(rest, end - start);
        assert(stripped(answer@, white@) == answer@.subrange(start as int, end as int));
    }
    if end - start == 1 {
        let letter = answer.get_char(start);
        assert(answer@.subrange(start as int, end as int) =~= seq![letter]);
        assert(seq![letter] == seq!['y'] <==> letter == 'y') by {
            assert(seq![letter][0] == letter);
            assert(seq!['y'][0] == 'y');
        }
        assert(seq![letter] == seq!['Y'] <==> letter == 'Y') by {
            assert(seq![letter][0] == letter);
            assert(seq!['Y'][0] == 'Y');
        }
        letter == 'y' || letter == 'Y'
    } else {
        assert(answer@.subrange(start as int, end as int).len() != 1);
        assert(seq!['y'].len() == 1 && seq!['Y'].len() == 1);
        false
    }
}

/// Whether an answer to a yes-or-no question says yes.
pub fn is_yes(answer: &str) -> (yes: bool)
    ensures
        yes == says_yes(answer@),
{
    let length = answer.unicode_len();
    let mut white: Vec<bool> = Vec::new();
    let mut i: usize = 0;
    while i < length
        invariant
            length == answer@.len(),
            i <= length,
            white@.len() == i,
            forall|k: int| 0 <= k < i ==> white@[k] == white_space(answer@[k]),
        decreases length - i,
    {
        white.push(is_whitespace(answer.get_char(i)));
        i += 1;
    }
    assert(white@ =~= whiteness(answer@));
    is_yes_within(answer, &white)
}

/// `text` without its last character; the empty text stays empty.
pub open spec fn without_last(text: Seq<char>) -> Seq<char> {
    if text.len() == 0 {
        text
    } else {
        text.drop_last()
    }
}

/// Takes the last character off `text`.
pub fn drop_last_char(text: &str) -> (rest: &str)
    ensures
        rest@ == without_last(text@),
{
    let length = text.unicode_len();
    if length == 0 {
        text
    } else {
        text.substring_char(0, length - 1)
    }
}

} // verus!
