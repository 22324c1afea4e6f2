//! What the operations on texts are for.
use vstd::prelude::*;
use crate::text;

verus! {

/// White space and nothing else.
pub open spec fn is_blank(value: Seq<char>) -> bool {
    forall|k: int| 0 <= k < value.len() ==> text::is_white(#[trigger] value[k])
}

/// White space at neither end.
pub open spec fn is_bare(value: Seq<char>) -> bool {
    value.len() > 0 ==> !text::is_white(value[0]) && !text::is_white(value.last())
}

proof fn lemma_leading(blank: Seq<char>, rest: Seq<char>)
    requires
        is_blank(blank),
        rest.len() > 0 ==> !text::is_white(rest[0]),
    ensures
        text::leading_white(blank + rest) == blank.len(),
    decreases blank.len(),
{
    let whole = blank + rest;
    if blank.len() > 0 {
        let fewer = blank.drop_first();
        assert forall|k: int| 0 <= k < fewer.len() implies text::is_white(
            #[trigger] fewer[k],
        ) by {
            assert(fewer[k] == blank[k + 1]);
        }
        lemma_leading(fewer, rest);
        assert(whole.drop_first() =~= fewer + rest);
        assert(whole[0] == blank[0]);
    } else {
        assert(whole =~= rest);
    }
}

proof fn lemma_trailing(rest: Seq<char>, blank: Seq<char>)
    requires
        is_blank(blank),
        rest.len() > 0 ==> !text::is_white(rest.last()),
    ensures
        text::trimmed_end(rest + blank) == rest,
    decreases blank.len(),
{
    let whole = rest + blank;
    if blank.len() > 0 {
        let fewer = blank.drop_last();
        assert forall|k: int| 0 <= k < fewer.len() implies text::is_white(
            #[trigger] fewer[k],
        ) by {
            assert(fewer[k] == blank[k]);
        }
        lemma_trailing(rest, fewer);
        assert(whole.drop_last() =~= rest + fewer);
        assert(whole.last() == blank[blank.len() - 1]);
    } else {
        assert(whole =~= rest);
    }
}

/// Trimming takes the white space off both ends and nothing else.
pub proof fn law_trimming_takes_white_space_off(
    before: Seq<char>,
    value: Seq<char>,
    behind: Seq<char>,
)
    requires
        is_blank(before),
        is_bare(value),
        is_blank(behind),
    ensures
        text::trimmed(before + value + behind) == value,
{
    let whole = before + value + behind;
    if value.len() == 0 {
        let all = before + behind;
        assert(whole =~= all + Seq::<char>::empty());
        assert(is_blank(all)) by {
            assert forall|k: int| 0 <= k < all.len() implies text::is_white(#[trigger] all[k]) by {
                if k < before.len() {
                    assert(all[k] == before[k]);
                } else {
                    assert(all[k] == behind[k - before.len()]);
                }
            }
        }
        lemma_leading(all, Seq::empty());
        assert(whole.skip(whole.len() as int) =~= Seq::<char>::empty());
        assert(value =~= Seq::<char>::empty());
    } else {
        assert(whole =~= before + (value + behind));
        lemma_leading(before, value + behind);
        assert(whole.skip(before.len() as int) =~= value + behind);
        lemma_trailing(value, behind);
    }
}

/// A text is its trimmed form with white space around it.
pub proof fn law_trimmed_is_bare(value: Seq<char>) -> (ends: (Seq<char>, Seq<char>))
    ensures
        is_bare(text::trimmed(value)),
        is_blank(ends.0),
        is_blank(ends.1),
        value == ends.0 + text::trimmed(value) + ends.1,
        text::trimmed(text::trimmed(value)) == text::trimmed(value),
{
    let head = lemma_leading_part(value);
    let rest = value.skip(head.len() as int);
    let tail = lemma_trailing_part(rest);
    let bare = text::trimmed(value);
    assert(value =~= head + rest);
    assert(rest == bare + tail);
    if bare.len() > 0 {
        assert(rest[0] == bare[0]);
    }
    assert(value =~= head + bare + tail);
    let none = Seq::<char>::empty();
    law_trimming_takes_white_space_off(none, bare, none);
    assert(none + bare + none =~= bare);
    (head, tail)
}

proof fn lemma_leading_part(value: Seq<char>) -> (head: Seq<char>)
    ensures
        head == value.take(text::leading_white(value) as int),
        text::leading_white(value) <= value.len(),
        head.len() == text::leading_white(value),
        is_blank(head),
        value.skip(head.len() as int).len() > 0 ==> !text::is_white(
            value.skip(head.len() as int)[0],
        ),
    decreases value.len(),
{
    if value.len() > 0 && text::is_white(value[0]) {
        let rest = value.drop_first();
        let head = lemma_leading_part(rest);
        let whole = value.take(text::leading_white(value) as int);
        assert forall|k: int| 0 <= k < whole.len() implies text::is_white(#[trigger] whole[k]) by {
            if k > 0 {
                assert(whole[k] == head[k - 1]);
            }
        }
        assert(value.skip(whole.len() as int) =~= rest.skip(head.len() as int));
        whole
    } else {
        let head = value.take(0);
        assert(value.skip(0) =~= value);
        head
    }
}

proof fn lemma_trailing_part(value: Seq<char>) -> (tail: Seq<char>)
    ensures
        is_blank(tail),
        value == text::trimmed_end(value) + tail,
        text::trimmed_end(value).len() > 0 ==> !text::is_white(text::trimmed_end(value).last()),
    decreases value.len(),
{
    if value.len() > 0 && text::is_white(value.last()) {
        let fewer = value.drop_last();
        let tail = lemma_trailing_part(fewer);
        let whole = tail.push(value.last());
        assert forall|k: int| 0 <= k < whole.len() implies text::is_white(#[trigger] whole[k]) by {
            if k < tail.len() {
                assert(whole[k] == tail[k]);
            }
        }
        let bare = text::trimmed_end(value);
        assert(bare == text::trimmed_end(fewer));
        assert(bare + whole =~= (bare + tail).push(value.last()));
        assert(value =~= fewer.push(value.last()));
        whole
    } else {
        let tail = Seq::<char>::empty();
        assert(value =~= value + tail);
        tail
    }
}

/// White space is what counts as such: spaces, tabs, line ends and their like,
/// and neither letters, digits nor punctuation of the plain alphabet.
pub proof fn law_white_space(c: char)
    ensures
        c == ' ' || c == '\t' || c == '\n' || c == '\r' ==> text::is_white(c),
        33 <= c as u32 <= 126 ==> !text::is_white(c),
        text::is_white(c) && (c as u32) < 128 ==> c == ' ' || 9 <= c as u32 <= 13,
{
}

/// Joining puts a separator between any two parts, and nowhere else.
pub proof fn law_joining_puts_separators_between(
    left: Seq<Seq<char>>,
    right: Seq<Seq<char>>,
    part: Seq<char>,
    separator: Seq<char>,
)
    ensures
        text::joined(Seq::empty(), separator) == Seq::<char>::empty(),
        text::joined(seq![part], separator) == part,
        left.len() > 0 && right.len() > 0 ==> text::joined(left + right, separator)
            == text::joined(left, separator) + separator + text::joined(right, separator),
    decreases right.len(),
{
    if left.len() > 0 && right.len() == 1 {
        assert((left + right).drop_last() =~= left);
    }
    if left.len() > 0 && right.len() > 1 {
        let fewer = right.drop_last();
        law_joining_puts_separators_between(left, fewer, part, separator);
        let whole = left + right;
        assert(whole.drop_last() =~= left + fewer);
        assert(text::joined(whole, separator) =~= text::joined(left, separator) + separator
            + text::joined(right, separator));
    }
}

/// A number is written in digits that spell it, without a zero in front.
pub proof fn law_digits_spell_the_number(n: nat)
    ensures
        text::number_of(text::digits(n)) == n,
        forall|k: int| 0 <= k < text::digits(n).len() ==> text::is_digit(#[trigger] text::digits(n)[k]),
        text::digits(n).len() > 0,
        text::digits(n).len() > 1 ==> text::digits(n)[0] != '0',
        n <= u64::MAX ==> text::natural(text::digits(n)) == Some(n),
{
    text::lemma_digits_spell(n);
    lemma_no_leading_zero(n);
    let part = text::digits(n);
    assert(text::is_digit(part[0]));
    assert(part[0] != '+');
}

proof fn lemma_no_leading_zero(n: nat)
    ensures
        text::digits(n).len() > 0,
        n > 0 ==> text::digits(n)[0] != '0',
        n < 10 ==> text::digits(n).len() == 1,
    decreases n,
{
    if n >= 10 {
        lemma_no_leading_zero(n / 10);
        assert(text::digits(n)[0] == text::digits(n / 10)[0]);
    }
}

/// The number of digits is what their places say.
pub proof fn law_digits_have_places(head: Seq<char>, last: char)
    requires
        text::is_digit(last),
    ensures
        text::number_of(head.push(last)) == 10 * text::number_of(head) + (last as int - '0' as int),
        text::number_of(Seq::empty()) == 0,
{
    assert(head.push(last).drop_last() =~= head);
}

/// A signed number is written with a minus in front of its size.
pub proof fn law_minus_stands_in_front(n: nat)
    ensures
        text::signed_digits(n as int) == text::digits(n),
        n > 0 ==> text::signed_digits(-(n as int)) == seq!['-'] + text::digits(n),
{
}

/// A text is filled up with spaces to a width, behind it or in front of it; one
/// that is as wide stays as it is.
pub proof fn law_padding_fills_up(value: Seq<char>, width: nat)
    ensures
        ({
            let (left, right) = (text::padded(value, width), text::padded_left(value, width));
            &&& value.len() >= width ==> left == value && right == value
            &&& value.len() < width ==> left.len() == width && right.len() == width
            &&& value.is_prefix_of(left)
            &&& forall|k: int| value.len() <= k < left.len() ==> #[trigger] left[k] == ' '
            &&& right.skip(right.len() - value.len()) == value
            &&& forall|k: int|
                0 <= k < right.len() - value.len() ==> #[trigger] right[k] == ' '
        }),
{
    let (left, right) = (text::padded(value, width), text::padded_left(value, width));
    assert(right.skip(right.len() - value.len()) =~= value);
    assert(value =~= left.subrange(0, value.len() as int));
}

/// A text begins with another, ends with it or holds it where it can be split
/// so.
pub proof fn law_parts_of_a_text(before: Seq<char>, part: Seq<char>, behind: Seq<char>)
    ensures
        text::has_prefix(part + behind, part),
        text::has_suffix(before + part, part),
        text::occurs(before + part + behind, part),
        text::after_prefix(part + behind, part) == Some(behind),
{
    assert((part + behind).subrange(0, part.len() as int) =~= part);
    assert((part + behind).skip(part.len() as int) =~= behind);
    let ended = before + part;
    assert(ended.subrange(ended.len() - part.len(), ended.len() as int) =~= part);
    let whole = before + part + behind;
    assert(whole.subrange(before.len() as int, (before.len() + part.len()) as int) =~= part);
    assert(text::occurs_at(whole, part, before.len() as int));
}

/// What is found in a text is a part of it.
pub proof fn law_found_is_a_part(value: Seq<char>, part: Seq<char>)
    ensures
        text::has_prefix(value, part) ==> exists|rest: Seq<char>| value == #[trigger] (part + rest),
        text::has_suffix(value, part) ==> exists|rest: Seq<char>| value == #[trigger] (rest + part),
        text::after_prefix(value, part) is Some ==> value == part + text::after_prefix(
            value,
            part,
        )->0,
        text::after_prefix(value, part) is None ==> !text::has_prefix(value, part),
        text::occurs(value, part) ==> exists|before: Seq<char>, behind: Seq<char>|
            value == #[trigger] (before + part + behind),
{
    if text::has_prefix(value, part) {
        let rest = value.skip(part.len() as int);
        assert(value =~= value.subrange(0, part.len() as int) + rest);
        assert(value == part + rest);
    }
    if text::has_suffix(value, part) {
        let rest = value.take(value.len() - part.len());
        assert(value =~= rest + value.subrange(value.len() - part.len(), value.len() as int));
        assert(value == rest + part);
    }
    if text::occurs(value, part) {
        let at = choose|at: int| text::occurs_at(value, part, at);
        let before = value.take(at);
        let behind = value.skip(at + part.len());
        assert(value =~= before + value.subrange(at, at + part.len()) + behind);
        assert(value == before + part + behind);
    }
}

/// Texts are ordered by their first difference, and a text comes before what
/// it begins.
pub proof fn law_first_difference_orders(
    common: Seq<char>,
    a: char,
    left: Seq<char>,
    b: char,
    right: Seq<char>,
)
    ensures
        a != b ==> (text::before(common + seq![a] + left, common + seq![b] + right) <==> (
        a as int) < (b as int)),
        text::before(common, common + seq![b] + right),
        !text::before(common + seq![b] + right, common),
    decreases common.len(),
{
    let (one, two) = (common + seq![a] + left, common + seq![b] + right);
    if common.len() > 0 {
        let rest = common.drop_first();
        law_first_difference_orders(rest, a, left, b, right);
        assert(one.drop_first() =~= rest + seq![a] + left);
        assert(two.drop_first() =~= rest + seq![b] + right);
        assert(one[0] == common[0] && two[0] == common[0]);
    } else {
        assert(one[0] == a && two[0] == b);
    }
}

/// A line ends at a line feed, and a carriage return before it is not part of
/// it; what is behind the last line feed is a line too, unless it is empty.
pub proof fn law_lines_end_at_line_feeds(line: Seq<char>, rest: Seq<char>)
    requires
        forall|k: int| 0 <= k < line.len() ==> line[k] != '\n',
    ensures
        text::lines_of(line + seq!['\n'] + rest) == seq![
            if line.len() > 0 && line.last() == '\r' {
                line.drop_last()
            } else {
                line
            },
        ] + text::lines_of(rest),
        line.len() > 0 ==> text::lines_of(line) == seq![line],
        text::lines_of(Seq::empty()) == Seq::<Seq<char>>::empty(),
{
    let whole = line + seq!['\n'] + rest;
    lemma_feed(line, rest);
    assert(whole.take(line.len() as int) =~= line);
    assert(whole.skip(line.len() as int + 1) =~= rest);
}

proof fn lemma_feed(line: Seq<char>, rest: Seq<char>)
    requires
        forall|k: int| 0 <= k < line.len() ==> line[k] != '\n',
    ensures
        text::first_index(line + seq!['\n'] + rest, '\n') == line.len(),
        text::first_index(line, '\n') == line.len(),
    decreases line.len(),
{
    let whole = line + seq!['\n'] + rest;
    if line.len() > 0 {
        let fewer = line.drop_first();
        assert forall|k: int| 0 <= k < fewer.len() implies fewer[k] != '\n' by {
            assert(fewer[k] == line[k + 1]);
        }
        lemma_feed(fewer, rest);
        assert(whole.drop_first() =~= fewer + seq!['\n'] + rest);
        assert(whole[0] == line[0]);
    } else {
        assert(whole[0] == '\n');
    }
}

/// A number is read from digits, with a plus in front or without; anything else
/// is none, and neither is what does not fit.
pub proof fn law_numbers_are_read_from_digits(value: Seq<char>, n: nat, k: int)
    requires
        n <= u64::MAX,
        0 <= k < value.len(),
    ensures
        text::natural(text::digits(n)) == Some(n),
        text::natural(seq!['+'] + text::digits(n)) == Some(n),
        !text::is_digit(value[k]) && !(k == 0 && value[0] == '+') ==> text::natural(value) is None,
        text::natural(Seq::empty()) is None,
        text::natural(seq!['+']) is None,
        n < 0x8000_0000 ==> text::integer(text::digits(n)) == Some(n as int),
        0 < n <= 0x8000_0000 ==> text::integer(seq!['-'] + text::digits(n)) == Some(-(n as int)),
{
    law_digits_spell_the_number(n);
    let body = text::digits(n);
    let plus = seq!['+'] + body;
    assert(plus.skip(1) =~= body);
    let minus = seq!['-'] + body;
    assert(minus.skip(1) =~= body);
    assert(text::is_digit(body[0]));
    assert(minus[1] == body[0]);
    if !text::is_digit(value[k]) && !(k == 0 && value[0] == '+') {
        let part = text::unsigned_part(value);
        if value.len() > 1 && value[0] == '+' {
            assert(part[k - 1] == value[k]);
        } else {
            assert(part[k] == value[k]);
        }
    }
    assert(!text::is_digit(text::unsigned_part(seq!['+'])[0]));
}

/// Replacing changes one character wherever it stands, and no other.
pub proof fn law_replacing_changes_one_character(value: Seq<char>, from: char, to: char, k: int)
    requires
        0 <= k < value.len(),
    ensures
        text::replaced(value, from, to).len() == value.len(),
        text::replaced(value, from, to)[k] == (if value[k] == from {
            to
        } else {
            value[k]
        }),
{
}

/// A character takes one byte to four, by how large it is, and a text as many as
/// its characters.
pub proof fn law_bytes_are_counted(value: Seq<char>, c: char)
    ensures
        text::byte_length(Seq::empty()) == 0,
        c <= '\u{7f}' ==> text::byte_length(value.push(c)) == text::byte_length(value) + 1,
        '\u{80}' <= c <= '\u{7ff}' ==> text::byte_length(value.push(c)) == text::byte_length(value)
            + 2,
        '\u{800}' <= c <= '\u{ffff}' ==> text::byte_length(value.push(c)) == text::byte_length(
            value,
        ) + 3,
        '\u{10000}' <= c ==> text::byte_length(value.push(c)) == text::byte_length(value) + 4,
{
    assert(value.push(c).drop_last() =~= value);
}

/// The part between two bytes is what stands there; there is none where a byte
/// does not stand between two characters.
pub proof fn law_part_between_bytes(before: Seq<char>, part: Seq<char>, behind: Seq<char>, byte: nat)
    ensures
        ({
            let value = before + part + behind;
            let from = text::byte_length(before);
            let to = text::byte_length(before + part);
            &&& text::between_bytes(value, from, to) == Some(part)
            &&& (forall|i: int|
                0 <= i <= value.len() ==> text::byte_length(#[trigger] value.take(i)) != byte)
                ==> text::between_bytes(value, byte, to) is None && text::between_bytes(
                value,
                from,
                byte,
            ) is None
        }),
{
    let value = before + part + behind;
    let (from, to) = (text::byte_length(before), text::byte_length(before + part));
    let a = before.len() as int;
    let b = (before.len() + part.len()) as int;
    assert(value.take(a) =~= before);
    assert(value.take(b) =~= before + part);
    assert(text::at_byte(value, a, from) && text::at_byte(value, b, to));
    let (i, j) = choose|i: int, j: int|
        text::at_byte(value, i, from) && text::at_byte(value, j, to) && i <= j;
    text::lemma_at_byte_once(value, i, a, from);
    text::lemma_at_byte_once(value, j, b, to);
    assert(value.subrange(a, b) =~= part);
    if forall|n: int|
        0 <= n <= value.len() ==> text::byte_length(#[trigger] value.take(n)) != byte {
        assert forall|n: int| !text::at_byte(value, n, byte) by {
            if 0 <= n <= value.len() {
                assert(text::byte_length(value.take(n)) != byte);
            }
        }
    }
}

} // verus!
