//! Text as a sequence of characters: the small vocabulary of string
//! operations that the rest of the crate is stated in.
use vstd::prelude::*;
use vstd::string::*;

verus! {

/// The views of a sequence of owned strings.
pub open spec fn texts(values: Seq<String>) -> Seq<Seq<char>> {
    Seq::new(values.len(), |i: int| values[i]@)
}

/// The view of an optional borrowed text.
pub open spec fn opt_text(value: Option<&str>) -> Option<Seq<char>> {
    match value {
        Some(text) => Some(text@),
        None => None,
    }
}

/// The view of an optional owned text.
pub open spec fn opt_string(value: Option<String>) -> Option<Seq<char>> {
    match value {
        Some(text) => Some(text@),
        None => None,
    }
}

/// Whether two texts hold the same characters.
pub fn same(left: &str, right: &str) -> (r: bool)
    ensures
        r == (left@ == right@),
{
    left.to_owned() == right.to_owned()
}

pub fn chars_of(value: &str) -> (r: Vec<char>)
    ensures
        r@ == value@,
{
    let mut out: Vec<char> = Vec::new();
    for c in it: value.chars()
        invariant
            out@ == it.seq().take(it.index()),
            it.seq() == value@,
    {
        out.push(c);
    }
    out
}

/// The characters from `from` up to `to`, exclusive.
pub fn slice(value: &str, from: usize, to: usize) -> (r: String)
    requires
        from <= to <= value@.len(),
    ensures
        r@ == value@.subrange(from as int, to as int),
{
    value.substring_char(from, to).to_owned()
}

pub fn cat2(a: &str, b: &str) -> (r: String)
    ensures
        r@ == a@ + b@,
{
    let mut out = a.to_owned();
    out.append(b);
    out
}

pub fn cat3(a: &str, b: &str, c: &str) -> (r: String)
    ensures
        r@ == a@ + b@ + c@,
{
    let mut out = a.to_owned();
    out.append(b);
    out.append(c);
    out
}

pub fn cat4(a: &str, b: &str, c: &str, d: &str) -> (r: String)
    ensures
        r@ == a@ + b@ + c@ + d@,
{
    let mut out = cat3(a, b, c);
    out.append(d);
    out
}

pub fn cat5(a: &str, b: &str, c: &str, d: &str, e: &str) -> (r: String)
    ensures
        r@ == a@ + b@ + c@ + d@ + e@,
{
    let mut out = cat4(a, b, c, d);
    out.append(e);
    out
}

pub fn cat6(a: &str, b: &str, c: &str, d: &str, e: &str, f: &str) -> (r: String)
    ensures
        r@ == a@ + b@ + c@ + d@ + e@ + f@,
{
    let mut out = cat5(a, b, c, d, e);
    out.append(f);
    out
}

pub fn cat7(a: &str, b: &str, c: &str, d: &str, e: &str, f: &str, g: &str) -> (r: String)
    ensures
        r@ == a@ + b@ + c@ + d@ + e@ + f@ + g@,
{
    let mut out = cat6(a, b, c, d, e, f);
    out.append(g);
    out
}

/// Lexicographic order by code point: `left` comes strictly before `right`.
pub open spec fn before(left: Seq<char>, right: Seq<char>) -> bool
    decreases left.len(),
{
    if right.len() == 0 {
        false
    } else if left.len() == 0 {
        true
    } else if left[0] != right[0] {
        (left[0] as int) < (right[0] as int)
    } else {
        before(left.drop_first(), right.drop_first())
    }
}

/// No text comes before itself.
pub proof fn lemma_before_irreflexive(a: Seq<char>)
    ensures
        !before(a, a),
    decreases a.len(),
{
    if a.len() > 0 {
        lemma_before_irreflexive(a.drop_first());
    }
}

/// Two different texts are ordered one way or the other.
pub proof fn lemma_before_total(a: Seq<char>, b: Seq<char>)
    ensures
        a == b || before(a, b) || before(b, a),
    decreases a.len(),
{
    if a.len() > 0 && b.len() > 0 {
        if a[0] != b[0] {
            assert((a[0] as int) != (b[0] as int));
        } else {
            lemma_before_total(a.drop_first(), b.drop_first());
            if a.drop_first() == b.drop_first() {
                assert(a =~= seq![a[0]] + a.drop_first());
                assert(b =~= seq![b[0]] + b.drop_first());
            }
            assert(before(b, a) == before(b.drop_first(), a.drop_first()));
        }
    } else if a.len() == 0 && b.len() == 0 {
        assert(a =~= b);
    }
}

/// The order is transitive.
pub proof fn lemma_before_transitive(a: Seq<char>, b: Seq<char>, c: Seq<char>)
    requires
        before(a, b),
        before(b, c),
    ensures
        before(a, c),
    decreases a.len(),
{
    if a.len() > 0 && b.len() > 0 && c.len() > 0 && a[0] == b[0] && b[0] == c[0] {
        lemma_before_transitive(a.drop_first(), b.drop_first(), c.drop_first());
    }
}

/// The order is never both ways.
pub proof fn lemma_before_asymmetric(a: Seq<char>, b: Seq<char>)
    requires
        before(a, b),
    ensures
        !before(b, a),
        a != b,
{
    lemma_before_irreflexive(a);
    if before(b, a) {
        lemma_before_transitive(a, b, a);
    }
}

fn code_point(c: char) -> (r: u32)
    ensures
        r as int == c as int,
{
    c as u32
}

/// Whether `left` comes strictly before `right` in lexicographic order.
pub fn precedes(left: &str, right: &str) -> (r: bool)
    ensures
        r == before(left@, right@),
{
    let a = chars_of(left);
    let b = chars_of(right);
    let mut i: usize = 0;
    proof {
        assert(a@.skip(0) =~= a@);
        assert(b@.skip(0) =~= b@);
    }
    while i < a.len() && i < b.len()
        invariant
            i <= a.len(),
            i <= b.len(),
            a@ == left@,
            b@ == right@,
            before(left@, right@) == before(a@.skip(i as int), b@.skip(i as int)),
        decreases a.len() - i,
    {
        proof {
            assert(a@.skip(i as int)[0] == a@[i as int]);
            assert(b@.skip(i as int)[0] == b@[i as int]);
            assert(a@.skip(i as int).drop_first() =~= a@.skip(i + 1));
            assert(b@.skip(i as int).drop_first() =~= b@.skip(i + 1));
        }
        if a[i] != b[i] {
            return code_point(a[i]) < code_point(b[i]);
        }
        i = i + 1;
    }
    i < b.len()
}

/// The characters with the Unicode property White_Space.
pub open spec fn is_white(c: char) -> bool {
    let n = c as u32;
    ||| 9 <= n <= 13
    ||| n == 0x20
    ||| n == 0x85
    ||| n == 0xA0
    ||| n == 0x1680
    ||| 0x2000 <= n <= 0x200A
    ||| n == 0x2028
    ||| n == 0x2029
    ||| n == 0x202F
    ||| n == 0x205F
    ||| n == 0x3000
}

fn white(c: char) -> (r: bool)
    ensures
        r == is_white(c),
{
    let n: u32 = c as u32;
    (9 <= n && n <= 13) || n == 0x20 || n == 0x85 || n == 0xA0 || n == 0x1680 || (0x2000 <= n && n
        <= 0x200A) || n == 0x2028 || n == 0x2029 || n == 0x202F || n == 0x205F || n == 0x3000
}

/// How many characters at the start of `value` are white space.
pub open spec fn leading_white(value: Seq<char>) -> nat
    decreases value.len(),
{
    if value.len() > 0 && is_white(value[0]) {
        1 + leading_white(value.drop_first())
    } else {
        0
    }
}

/// `value` without the white space at its end.
pub open spec fn trimmed_end(value: Seq<char>) -> Seq<char>
    decreases value.len(),
{
    if value.len() > 0 && is_white(value.last()) {
        trimmed_end(value.drop_last())
    } else {
        value
    }
}

/// `value` without the white space at either end.
pub open spec fn trimmed(value: Seq<char>) -> Seq<char> {
    trimmed_end(value.skip(leading_white(value) as int))
}

/// `value` without the white space at either end.
pub fn trim(value: &str) -> (r: String)
    ensures
        r@ == trimmed(value@),
{
    let cs = chars_of(value);
    let mut start: usize = 0;
    proof {
        assert(cs@.skip(0) =~= cs@);
    }
    while start < cs.len() && white(cs[start])
        invariant
            start <= cs.len(),
            cs@ == value@,
            leading_white(value@) == start + leading_white(cs@.skip(start as int)),
        decreases cs.len() - start,
    {
        proof {
            assert(cs@.skip(start as int)[0] == cs@[start as int]);
            assert(cs@.skip(start as int).drop_first() =~= cs@.skip(start + 1));
        }
        start = start + 1;
    }
    proof {
        if start < cs@.len() {
            assert(cs@.skip(start as int)[0] == cs@[start as int]);
        }
        assert(leading_white(value@) == start);
        assert(cs@.skip(start as int) =~= cs@.subrange(start as int, cs@.len() as int));
    }
    let mut end: usize = cs.len();
    while end > start && white(cs[end - 1])
        invariant
            start <= end <= cs.len(),
            cs@ == value@,
            trimmed_end(cs@.skip(start as int)) == trimmed_end(
                cs@.subrange(start as int, end as int),
            ),
        decreases end,
    {
        proof {
            assert(cs@.subrange(start as int, end as int).last() == cs@[end - 1]);
            assert(cs@.subrange(start as int, end as int).drop_last() =~= cs@.subrange(
                start as int,
                end - 1,
            ));
        }
        end = end - 1;
    }
    proof {
        if start < end {
            assert(cs@.subrange(start as int, end as int).last() == cs@[end - 1]);
        }
    }
    slice(value, start, end)
}

/// The parts written one after the other with `separator` between them.
pub open spec fn joined(parts: Seq<Seq<char>>, separator: Seq<char>) -> Seq<char>
    decreases parts.len(),
{
    if parts.len() == 0 {
        Seq::empty()
    } else if parts.len() == 1 {
        parts[0]
    } else {
        joined(parts.drop_last(), separator) + separator + parts.last()
    }
}

pub fn join(parts: &[String], separator: &str) -> (r: String)
    ensures
        r@ == joined(texts(parts@), separator@),
{
    let mut out = String::new();
    let mut i: usize = 0;
    while i < parts.len()
        invariant
            i <= parts.len(),
            out@ == joined(texts(parts@).take(i as int), separator@),
        decreases parts.len() - i,
    {
        if i > 0 {
            out.append(separator);
        }
        let ghost all = texts(parts@);
        out.append(parts[i].as_str());
        proof {
            assert(all.take(i + 1).drop_last() =~= all.take(i as int));
            assert(all.take(i + 1).last() == parts@[i as int]@);
            if i == 0 {
                assert(all.take(0) =~= Seq::empty());
                assert(out@ =~= parts@[0]@);
            }
        }
        i = i + 1;
    }
    proof {
        assert(texts(parts@).take(parts@.len() as int) =~= texts(parts@));
    }
    out
}

/// Whether `part` occurs in `value` at position `at`.
pub open spec fn occurs_at(value: Seq<char>, part: Seq<char>, at: int) -> bool {
    0 <= at && at + part.len() <= value.len() && value.subrange(at, at + part.len()) == part
}

/// Whether `part` occurs anywhere in `value`.
pub open spec fn occurs(value: Seq<char>, part: Seq<char>) -> bool {
    exists|at: int| occurs_at(value, part, at)
}

pub open spec fn has_prefix(value: Seq<char>, prefix: Seq<char>) -> bool {
    occurs_at(value, prefix, 0)
}

pub open spec fn has_suffix(value: Seq<char>, suffix: Seq<char>) -> bool {
    occurs_at(value, suffix, value.len() - suffix.len())
}

fn matches_at(value: &Vec<char>, part: &Vec<char>, at: usize) -> (r: bool)
    ensures
        r == occurs_at(value@, part@, at as int),
{
    if part.len() > value.len() || at > value.len() - part.len() {
        return false;
    }
    let mut i: usize = 0;
    while i < part.len()
        invariant
            i <= part.len(),
            at + part.len() <= value.len(),
            forall|j: int| 0 <= j < i ==> value@[at + j] == part@[j],
        decreases part.len() - i,
    {
        if value[at + i] != part[i] {
            proof {
                assert(value@.subrange(at as int, at + part@.len())[i as int] != part@[i as int]);
            }
            return false;
        }
        i = i + 1;
    }
    proof {
        assert(value@.subrange(at as int, at + part@.len()) =~= part@);
    }
    true
}

/// Whether `part` occurs anywhere in `value`.
pub fn contains(value: &str, part: &str) -> (r: bool)
    ensures
        r == occurs(value@, part@),
{
    let v = chars_of(value);
    let p = chars_of(part);
    if p.len() > v.len() {
        return false;
    }
    let mut at: usize = 0;
    while at <= v.len() - p.len()
        invariant
            v@ == value@,
            p@ == part@,
            p.len() <= v.len(),
            at <= v.len() - p.len() + 1,
            forall|k: int| 0 <= k < at ==> !occurs_at(value@, part@, k),
        decreases v.len() - p.len() + 1 - at,
    {
        if matches_at(&v, &p, at) {
            return true;
        }
        if at == v.len() - p.len() {
            return false;
        }
        at = at + 1;
    }
    false
}

pub fn starts_with(value: &str, prefix: &str) -> (r: bool)
    ensures
        r == has_prefix(value@, prefix@),
{
    let v = chars_of(value);
    let p = chars_of(prefix);
    matches_at(&v, &p, 0)
}

pub fn ends_with(value: &str, suffix: &str) -> (r: bool)
    ensures
        r == has_suffix(value@, suffix@),
{
    let v = chars_of(value);
    let s = chars_of(suffix);
    if s.len() > v.len() {
        return false;
    }
    matches_at(&v, &s, v.len() - s.len())
}

/// What follows `prefix` in `value`, where `value` starts with it.
pub open spec fn after_prefix(value: Seq<char>, prefix: Seq<char>) -> Option<Seq<char>> {
    if has_prefix(value, prefix) {
        Some(value.skip(prefix.len() as int))
    } else {
        None
    }
}

pub fn strip_prefix(value: &str, prefix: &str) -> (r: Option<String>)
    ensures
        opt_string(r) == after_prefix(value@, prefix@),
{
    if starts_with(value, prefix) {
        let from = prefix.unicode_len();
        let to = value.unicode_len();
        proof {
            assert(value@.skip(from as int) =~= value@.subrange(from as int, to as int));
        }
        Some(slice(value, from, to))
    } else {
        None
    }
}

/// The position of the first `c` in `value`, or the length of `value`.
pub open spec fn first_index(value: Seq<char>, c: char) -> nat
    decreases value.len(),
{
    if value.len() == 0 || value[0] == c {
        0
    } else {
        1 + first_index(value.drop_first(), c)
    }
}

/// The position of the first `c` in `value`, or the length of `value`.
pub fn find_char(value: &str, c: char) -> (r: usize)
    ensures
        r == first_index(value@, c),
        r <= value@.len(),
        r < value@.len() <==> value@.contains(c),
        r < value@.len() ==> value@[r as int] == c,
        forall|k: int| 0 <= k < r ==> value@[k] != c,
{
    let cs = chars_of(value);
    let mut i: usize = 0;
    proof {
        assert(cs@.skip(0) =~= cs@);
    }
    while i < cs.len() && cs[i] != c
        invariant
            i <= cs.len(),
            cs@ == value@,
            first_index(value@, c) == i + first_index(cs@.skip(i as int), c),
            forall|k: int| 0 <= k < i ==> value@[k] != c,
        decreases cs.len() - i,
    {
        proof {
            assert(cs@.skip(i as int)[0] == cs@[i as int]);
            assert(cs@.skip(i as int).drop_first() =~= cs@.skip(i + 1));
        }
        i = i + 1;
    }
    proof {
        if i < cs@.len() {
            assert(cs@.skip(i as int)[0] == cs@[i as int]);
            assert(value@.contains(c));
        }
    }
    i
}

/// The decimal digits of `n`, most significant first.
pub open spec fn digits(n: nat) -> Seq<char>
    decreases n,
{
    if n < 10 {
        seq![digit(n)]
    } else {
        digits(n / 10).push(digit(n % 10))
    }
}

/// The character of one decimal digit.
pub open spec fn digit(n: nat) -> char {
    if n == 0 { '0' } else if n == 1 { '1' } else if n == 2 { '2' } else if n == 3 { '3' }
    else if n == 4 { '4' } else if n == 5 { '5' } else if n == 6 { '6' } else if n == 7 { '7' }
    else if n == 8 { '8' } else { '9' }
}

fn digit_text(n: u64) -> (r: &'static str)
    requires
        n < 10,
    ensures
        r@ == seq![digit(n as nat)],
{
    proof {
        reveal_strlit("0");
        reveal_strlit("1");
        reveal_strlit("2");
        reveal_strlit("3");
        reveal_strlit("4");
        reveal_strlit("5");
        reveal_strlit("6");
        reveal_strlit("7");
        reveal_strlit("8");
        reveal_strlit("9");
        assert("0"@ =~= seq!['0']);
        assert("1"@ =~= seq!['1']);
        assert("2"@ =~= seq!['2']);
        assert("3"@ =~= seq!['3']);
        assert("4"@ =~= seq!['4']);
        assert("5"@ =~= seq!['5']);
        assert("6"@ =~= seq!['6']);
        assert("7"@ =~= seq!['7']);
        assert("8"@ =~= seq!['8']);
        assert("9"@ =~= seq!['9']);
    }
    if n == 0 { "0" } else if n == 1 { "1" } else if n == 2 { "2" } else if n == 3 { "3" }
    else if n == 4 { "4" } else if n == 5 { "5" } else if n == 6 { "6" } else if n == 7 { "7" }
    else if n == 8 { "8" } else { "9" }
}

/// The decimal text of a natural number.
pub fn decimal(n: u64) -> (r: String)
    ensures
        r@ == digits(n as nat),
    decreases n,
{
    if n < 10 {
        digit_text(n).to_owned()
    } else {
        let mut out = decimal(n / 10);
        out.append(digit_text(n % 10));
        proof {
            assert(out@ =~= digits((n / 10) as nat).push(digit((n % 10) as nat)));
        }
        out
    }
}

/// The decimal text of an integer, with a minus sign where it is negative.
pub open spec fn signed_digits(n: int) -> Seq<char> {
    if n < 0 {
        seq!['-'] + digits((-n) as nat)
    } else {
        digits(n as nat)
    }
}

pub fn decimal_signed(n: i64) -> (r: String)
    ensures
        r@ == signed_digits(n as int),
{
    if n < 0 {
        let magnitude: u64 = if n == i64::MIN { 0x8000_0000_0000_0000u64 } else { (-n) as u64 };
        proof {
            reveal_strlit("-");
            assert("-"@ =~= seq!['-']);
        }
        cat2("-", decimal(magnitude).as_str())
    } else {
        decimal(n as u64)
    }
}

/// As many spaces as `n` says.
pub open spec fn spaces(n: nat) -> Seq<char> {
    Seq::new(n, |i: int| ' ')
}

fn blank(n: usize) -> (r: String)
    ensures
        r@ == spaces(n as nat),
{
    let mut out = String::new();
    let mut i: usize = 0;
    while i < n
        invariant
            i <= n,
            out@ =~= spaces(i as nat),
        decreases n - i,
    {
        proof {
            reveal_strlit(" ");
        }
        out.append(" ");
        i = i + 1;
    }
    out
}

/// `value` followed by spaces up to `width` characters.
pub open spec fn padded(value: Seq<char>, width: nat) -> Seq<char> {
    if value.len() < width {
        value + spaces((width - value.len()) as nat)
    } else {
        value
    }
}

pub fn pad(value: &str, width: usize) -> (r: String)
    ensures
        r@ == padded(value@, width as nat),
{
    let n = value.unicode_len();
    if n < width {
        cat2(value, blank(width - n).as_str())
    } else {
        value.to_owned()
    }
}

/// `value` preceded by spaces up to `width` characters.
pub open spec fn padded_left(value: Seq<char>, width: nat) -> Seq<char> {
    if value.len() < width {
        spaces((width - value.len()) as nat) + value
    } else {
        value
    }
}

pub fn pad_left(value: &str, width: usize) -> (r: String)
    ensures
        r@ == padded_left(value@, width as nat),
{
    let n = value.unicode_len();
    if n < width {
        cat2(blank(width - n).as_str(), value)
    } else {
        value.to_owned()
    }
}

/// Whether a list of strings holds a text.
pub fn listed(values: &[String], wanted: &str) -> (r: bool)
    ensures
        r == texts(values@).contains(wanted@),
{
    let mut i: usize = 0;
    while i < values.len()
        invariant
            i <= values.len(),
            forall|k: int| 0 <= k < i ==> texts(values@)[k] != wanted@,
        decreases values.len() - i,
    {
        if same(values[i].as_str(), wanted) {
            proof {
                assert(texts(values@)[i as int] == wanted@);
            }
            return true;
        }
        i = i + 1;
    }
    false
}

/// A line without the carriage return at its end.
pub open spec fn chomped(line: Seq<char>) -> Seq<char> {
    if line.len() > 0 && line.last() == '\r' {
        line.drop_last()
    } else {
        line
    }
}

/// The lines of a text, without their ends: each line feed ends a line, and
/// what follows the last one is a line where it is not empty.
pub open spec fn lines_of(value: Seq<char>) -> Seq<Seq<char>>
    decreases value.len(),
{
    let at = first_index(value, '\n') as int;
    if value.len() == 0 {
        Seq::empty()
    } else if at >= value.len() {
        seq![value]
    } else {
        seq![chomped(value.take(at))] + lines_of(value.skip(at + 1))
    }
}

/// The lines of a text, without their ends.
pub fn lines(value: &str) -> (r: Vec<String>)
    ensures
        texts(r@) == lines_of(value@),
{
    let mut out: Vec<String> = Vec::new();
    let mut rest: String = value.to_owned();
    proof {
        assert(texts(out@) + lines_of(rest@) =~= lines_of(value@));
    }
    loop
        invariant_except_break
            texts(out@) + lines_of(rest@) == lines_of(value@),
        ensures
            texts(out@) == lines_of(value@),
        decreases rest@.len(),
    {
        let length: usize = rest.as_str().unicode_len();
        if length == 0 {
            proof {
                assert(texts(out@) + lines_of(rest@) =~= texts(out@));
            }
            break;
        }
        let at: usize = find_char(rest.as_str(), '\n');
        let ghost before_out = out@;
        if at >= length {
            proof {
                assert(lines_of(rest@) =~= seq![rest@]);
            }
            out.push(rest);
            proof {
                assert(texts(out@) =~= texts(before_out) + seq![rest@]);
            }
            break;
        }
        let mut end: usize = at;
        if at > 0 && rest.as_str().get_char(at - 1) == '\r' {
            end = at - 1;
        }
        let line = slice(rest.as_str(), 0, end);
        proof {
            if at > 0 {
                assert(rest@.take(at as int).last() == rest@[at - 1]);
            }
            assert(line@ =~= chomped(rest@.take(at as int)));
        }
        let tail = slice(rest.as_str(), at + 1, length);
        out.push(line);
        proof {
            assert(tail@ =~= rest@.skip(at + 1));
            assert(texts(out@) =~= texts(before_out) + seq![line@]);
            assert(texts(out@) + lines_of(tail@) =~= texts(before_out) + lines_of(rest@));
        }
        rest = tail;
    }
    out
}

/// A text that ends with a line feed, and a line put behind it, has the lines
/// of the text and that line.
pub proof fn lemma_lines_append(value: Seq<char>, line: Seq<char>)
    requires
        value.len() == 0 || value.last() == '\n',
        line.len() > 0,
        forall|i: int| 0 <= i < line.len() ==> line[i] != '\n' && line[i] != '\r',
    ensures
        lines_of(value + line + "\n"@) == lines_of(value).push(line),
    decreases value.len(),
{
    reveal_strlit("\n");
    let whole = value + line + "\n"@;
    if value.len() == 0 {
        assert(whole =~= line + "\n"@);
        lemma_first_index(whole, '\n', line.len());
        assert(whole.take(line.len() as int) =~= line);
        assert(chomped(line) == line);
        assert(whole.skip(line.len() as int + 1) =~= Seq::<char>::empty());
        assert(lines_of(whole.skip(line.len() as int + 1)) =~= Seq::empty());
        assert(lines_of(whole) =~= seq![line]);
        assert(lines_of(value).push(line) =~= seq![line]);
    } else {
        lemma_first_index_found(value, '\n', value.len() - 1);
        let at = first_index(value, '\n') as int;
        assert forall|i: int| 0 <= i < at implies whole[i] != '\n' by {
            assert(whole[i] == value[i]);
        }
        assert(whole[at] == value[at]);
        lemma_first_index(whole, '\n', at as nat);
        let rest = value.skip(at + 1);
        assert(whole.take(at) =~= value.take(at));
        assert(whole.skip(at + 1) =~= rest + line + "\n"@);
        if rest.len() > 0 {
            assert(rest.last() == value.last());
        }
        lemma_lines_append(rest, line);
        assert(lines_of(whole) =~= lines_of(value).push(line));
    }
}

/// The index of a character that none like it stands before.
proof fn lemma_first_index(value: Seq<char>, c: char, at: nat)
    requires
        at < value.len(),
        value[at as int] == c,
        forall|i: int| 0 <= i < at ==> value[i] != c,
    ensures
        first_index(value, c) == at,
    decreases value.len(),
{
    if at > 0 {
        assert(value[0] != c);
        let rest = value.drop_first();
        assert(rest[at - 1] == c);
        assert forall|i: int| 0 <= i < at - 1 implies rest[i] != c by {
            assert(rest[i] == value[i + 1]);
        }
        lemma_first_index(rest, c, (at - 1) as nat);
    }
}

/// A character that is there is found, at the first place where it is.
proof fn lemma_first_index_found(value: Seq<char>, c: char, at: int)
    requires
        0 <= at < value.len(),
        value[at] == c,
    ensures
        first_index(value, c) <= at,
        value[first_index(value, c) as int] == c,
        forall|i: int| 0 <= i < first_index(value, c) ==> value[i] != c,
    decreases value.len(),
{
    if value[0] != c {
        let rest = value.drop_first();
        lemma_first_index_found(rest, c, at - 1);
        assert forall|i: int| 0 <= i < first_index(value, c) implies value[i] != c by {
            if i > 0 {
                assert(rest[i - 1] == value[i]);
            }
        }
    }
}

/// A decimal digit.
pub open spec fn is_digit(c: char) -> bool {
    '0' <= c && c <= '9'
}

/// The number that a row of digits spells.
pub open spec fn number_of(value: Seq<char>) -> nat
    decreases value.len(),
{
    if value.len() == 0 {
        0
    } else {
        number_of(value.drop_last()) * 10 + (value.last() as int - '0' as int) as nat
    }
}

/// The digits of a number, without the plus sign that may stand before them.
pub open spec fn unsigned_part(value: Seq<char>) -> Seq<char> {
    if value.len() > 1 && value[0] == '+' {
        value.skip(1)
    } else {
        value
    }
}

/// The natural number that a text spells, where it spells one of 64 bits.
pub open spec fn natural(value: Seq<char>) -> Option<nat> {
    let part = unsigned_part(value);
    if part.len() > 0 && (forall|i: int| 0 <= i < part.len() ==> is_digit(#[trigger] part[i]))
        && number_of(part) <= u64::MAX {
        Some(number_of(part))
    } else {
        None
    }
}

/// More digits spell no smaller number.
proof fn lemma_number_grows(value: Seq<char>, n: int)
    requires
        0 <= n <= value.len(),
        forall|i: int| 0 <= i < value.len() ==> is_digit(#[trigger] value[i]),
    ensures
        number_of(value.take(n)) <= number_of(value),
    decreases value.len() - n,
{
    if n == value.len() {
        assert(value.take(n) =~= value);
    } else {
        lemma_number_grows(value, n + 1);
        assert(value.take(n + 1).drop_last() =~= value.take(n));
        assert(is_digit(value.take(n + 1).last()));
    }
}

/// The natural number that a text spells, where it spells one of 64 bits.
pub fn parse_natural(value: &str) -> (r: Option<u64>)
    ensures
        match r {
            Some(n) => natural(value@) == Some(n as nat),
            None => natural(value@) is None,
        },
{
    let cs = chars_of(value);
    let mut i: usize = if cs.len() > 1 && cs[0] == '+' {
        1
    } else {
        0
    };
    let ghost start = i as int;
    let ghost part = unsigned_part(value@);
    proof {
        assert(part =~= value@.skip(start));
        assert(part.take(0).len() == 0);
    }
    if cs.len() == 0 {
        return None;
    }
    let mut n: u64 = 0;
    while i < cs.len()
        invariant
            start <= i <= cs.len(),
            0 <= start,
            cs@ == value@,
            part == value@.skip(start),
            part == unsigned_part(value@),
            n as nat == number_of(part.take(i - start)),
            forall|k: int| 0 <= k < i - start ==> is_digit(#[trigger] part[k]),
        decreases cs.len() - i,
    {
        let c = cs[i];
        proof {
            assert(part[i - start] == c);
        }
        if c < '0' || c > '9' {
            proof {
                assert(!is_digit(part[i - start]));
            }
            return None;
        }
        let d: u64 = (c as u32 - '0' as u32) as u64;
        let ghost m = number_of(part.take(i - start));
        proof {
            assert(part.take(i + 1 - start).drop_last() =~= part.take(i - start));
            assert(number_of(part.take(i + 1 - start)) == m * 10 + d);
            if forall|k: int| 0 <= k < part.len() ==> is_digit(#[trigger] part[k]) {
                lemma_number_grows(part, i + 1 - start);
            }
        }
        if n > (u64::MAX - d) / 10 {
            proof {
                assert(m * 10 + d > u64::MAX) by (nonlinear_arith)
                    requires
                        m > (u64::MAX - d) / 10,
                        d <= 9,
                ;
            }
            return None;
        }
        proof {
            assert(n * 10 + d <= u64::MAX) by (nonlinear_arith)
                requires
                    n <= (u64::MAX - d) / 10,
                    d <= 9,
            ;
        }
        n = n * 10 + d;
        i = i + 1;
    }
    proof {
        assert(part.take(i - start) =~= part);
        assert(part.len() > 0);
    }
    Some(n)
}

/// The digits of a number spell that number.
pub proof fn lemma_digits_spell(n: nat)
    ensures
        number_of(digits(n)) == n,
        digits(n).len() > 0,
        forall|i: int| 0 <= i < digits(n).len() ==> is_digit(#[trigger] digits(n)[i]),
    decreases n,
{
    if n < 10 {
        assert(digits(n) =~= seq![digit(n)]);
        assert(digits(n).drop_last() =~= Seq::<char>::empty());
        assert(number_of(digits(n).drop_last()) == 0);
        assert(digits(n).last() as int - '0' as int == n);
    } else {
        lemma_digits_spell(n / 10);
        assert(digits(n) =~= digits(n / 10).push(digit(n % 10)));
        assert(digits(n).drop_last() =~= digits(n / 10));
    }
}

/// The integer that a text spells, where it spells one of 32 bits.
pub open spec fn integer(value: Seq<char>) -> Option<int> {
    if value.len() > 1 && value[0] == '-' && value[1] != '+' {
        match natural(value.skip(1)) {
            Some(n) => if n <= 0x8000_0000 {
                Some(-(n as int))
            } else {
                None
            },
            None => None,
        }
    } else {
        match natural(value) {
            Some(n) => if n < 0x8000_0000 {
                Some(n as int)
            } else {
                None
            },
            None => None,
        }
    }
}

/// The integer that a text spells, where it spells one of 32 bits.
pub fn parse_integer(value: &str) -> (r: Option<i32>)
    ensures
        match r {
            Some(n) => integer(value@) == Some(n as int),
            None => integer(value@) is None,
        },
{
    let length: usize = value.unicode_len();
    if length > 1 && value.get_char(0) == '-' && value.get_char(1) != '+' {
        let rest = slice(value, 1, length);
        proof {
            assert(rest@ =~= value@.skip(1));
        }
        match parse_natural(rest.as_str()) {
            Some(n) => if n <= 0x8000_0000 {
                Some((-(n as i64)) as i32)
            } else {
                None
            },
            None => None,
        }
    } else {
        match parse_natural(value) {
            Some(n) => if n < 0x8000_0000 {
                Some(n as i32)
            } else {
                None
            },
            None => None,
        }
    }
}

/// A text with one character in the place of another.
pub open spec fn replaced(value: Seq<char>, from: char, to: char) -> Seq<char> {
    value.map_values(|c: char| if c == from { to } else { c })
}

/// Whether two texts are the same once a character of the first is replaced.
pub fn same_replaced(value: &str, from: char, to: char, other: &str) -> (r: bool)
    ensures
        r == (replaced(value@, from, to) == other@),
{
    let length: usize = value.unicode_len();
    if length != other.unicode_len() {
        return false;
    }
    let mut i: usize = 0;
    while i < length
        invariant
            i <= length,
            length == value@.len(),
            length == other@.len(),
            forall|k: int| 0 <= k < i ==> replaced(value@, from, to)[k] == #[trigger] other@[k],
        decreases length - i,
    {
        let c = value.get_char(i);
        let wanted = if c == from {
            to
        } else {
            c
        };
        if other.get_char(i) != wanted {
            proof {
                assert(replaced(value@, from, to)[i as int] != other@[i as int]);
            }
            return false;
        }
        i = i + 1;
    }
    proof {
        assert(replaced(value@, from, to) =~= other@);
    }
    true
}

/// How many bytes a character takes in UTF-8.
pub open spec fn char_bytes(c: char) -> nat {
    if (c as int) < 0x80 {
        1
    } else if (c as int) < 0x800 {
        2
    } else if (c as int) < 0x10000 {
        3
    } else {
        4
    }
}

/// How many bytes a text takes in UTF-8.
pub open spec fn byte_length(value: Seq<char>) -> nat
    decreases value.len(),
{
    if value.len() == 0 {
        0
    } else {
        byte_length(value.drop_last()) + char_bytes(value.last())
    }
}

/// A position in a text stands at a byte of its UTF-8 form.
pub open spec fn at_byte(value: Seq<char>, i: int, byte: nat) -> bool {
    0 <= i <= value.len() && byte_length(value.take(i)) == byte
}

/// The part of a text between two bytes of its UTF-8 form, where both stand
/// between characters.
pub open spec fn between_bytes(value: Seq<char>, from: nat, to: nat) -> Option<Seq<char>> {
    if exists|i: int, j: int| at_byte(value, i, from) && at_byte(value, j, to) && i <= j {
        let (i, j) = choose|i: int, j: int|
            at_byte(value, i, from) && at_byte(value, j, to) && i <= j;
        Some(value.subrange(i, j))
    } else {
        None
    }
}

proof fn lemma_bytes_grow(value: Seq<char>, i: int, j: int)
    requires
        0 <= i <= j <= value.len(),
    ensures
        byte_length(value.take(i)) + (j - i) <= byte_length(value.take(j)),
    decreases j - i,
{
    if i < j {
        lemma_bytes_grow(value, i, j - 1);
        assert(value.take(j).drop_last() =~= value.take(j - 1));
    }
}

/// A byte stands at one position at most.
pub proof fn lemma_at_byte_once(value: Seq<char>, i: int, j: int, byte: nat)
    requires
        at_byte(value, i, byte),
        at_byte(value, j, byte),
    ensures
        i == j,
{
    if i < j {
        lemma_bytes_grow(value, i, j);
    } else if j < i {
        lemma_bytes_grow(value, j, i);
    }
}

fn find_byte(value: &str, byte: u32) -> (r: Option<usize>)
    ensures
        match r {
            Some(i) => at_byte(value@, i as int, byte as nat),
            None => forall|i: int| !at_byte(value@, i, byte as nat),
        },
{
    let length: usize = value.unicode_len();
    let mut at: u64 = 0;
    let mut i: usize = 0;
    proof {
        assert(value@.take(0).len() == 0);
    }
    while i < length && at < byte as u64
        invariant
            i <= length,
            length == value@.len(),
            at as nat == byte_length(value@.take(i as int)),
            forall|k: int| 0 <= k < i ==> #[trigger] byte_length(value@.take(k)) < byte,
            at <= byte + 3,
        decreases length - i,
    {
        let code: u32 = value.get_char(i) as u32;
        let width: u64 = if code < 0x80 {
            1
        } else if code < 0x800 {
            2
        } else if code < 0x10000 {
            3
        } else {
            4
        };
        proof {
            assert(value@.take(i + 1).drop_last() =~= value@.take(i as int));
            assert(value@.take(i + 1).last() == value@[i as int]);
        }
        at = at + width;
        i = i + 1;
    }
    if at == byte as u64 {
        return Some(i);
    }
    proof {
        assert forall|k: int| !at_byte(value@, k, byte as nat) by {
            if at_byte(value@, k, byte as nat) {
                if k > i {
                    lemma_bytes_grow(value@, i as int, k);
                }
            }
        }
    }
    None
}

/// The part of a text between two bytes of its UTF-8 form, where both stand
/// between characters.
pub fn byte_part(value: &str, from: u32, to: u32) -> (r: Option<String>)
    ensures
        opt_string(r) == between_bytes(value@, from as nat, to as nat),
{
    let first = find_byte(value, from);
    let last = find_byte(value, to);
    match (first, last) {
        (Some(i), Some(j)) => {
            if i <= j {
                proof {
                    let (a, b) = choose|a: int, b: int|
                        at_byte(value@, a, from as nat) && at_byte(value@, b, to as nat) && a <= b;
                    assert(at_byte(value@, i as int, from as nat));
                    assert(at_byte(value@, j as int, to as nat));
                    lemma_at_byte_once(value@, a, i as int, from as nat);
                    lemma_at_byte_once(value@, b, j as int, to as nat);
                }
                Some(slice(value, i, j))
            } else {
                proof {
                    assert forall|a: int, b: int|
                        at_byte(value@, a, from as nat) && at_byte(
                            value@,
                            b,
                            to as nat,
                        ) implies a > b by {
                        lemma_at_byte_once(value@, a, i as int, from as nat);
                        lemma_at_byte_once(value@, b, j as int, to as nat);
                    }
                }
                None
            }
        },
        _ => None,
    }
}

/// A text that begins and ends with a digit has nothing to trim.
pub proof fn lemma_untrimmed(value: Seq<char>)
    requires
        value.len() > 0,
        is_digit(value[0]),
        is_digit(value.last()),
    ensures
        trimmed(value) == value,
{
    assert(value.skip(0) =~= value);
}

/// How many digits a text begins with.
pub open spec fn leading_digits(value: Seq<char>) -> nat
    decreases value.len(),
{
    if value.len() > 0 && is_digit(value[0]) {
        1 + leading_digits(value.drop_first())
    } else {
        0
    }
}

/// Why a text spells no natural number of 64 bits, as Rust's parser says it:
/// what comes first, too many digits or something that is no digit.
pub open spec fn natural_complaint(value: Seq<char>) -> Seq<char> {
    let part = unsigned_part(value);
    if value.len() == 0 {
        "cannot parse integer from empty string"@
    } else if number_of(part.take(leading_digits(part) as int)) > u64::MAX {
        "number too large to fit in target type"@
    } else {
        "invalid digit found in string"@
    }
}

proof fn lemma_leading_digits(value: Seq<char>, n: int)
    requires
        0 <= n <= value.len(),
        forall|i: int| 0 <= i < n ==> is_digit(#[trigger] value[i]),
    ensures
        n <= leading_digits(value) <= value.len(),
        n == value.len() || !is_digit(value[n]) ==> leading_digits(value) == n,
        forall|i: int| 0 <= i < leading_digits(value) ==> is_digit(#[trigger] value[i]),
    decreases value.len(),
{
    if value.len() > 0 && is_digit(value[0]) {
        let rest = value.drop_first();
        let m = if n > 0 {
            n - 1
        } else {
            0
        };
        assert forall|i: int| 0 <= i < m implies is_digit(#[trigger] rest[i]) by {
            assert(rest[i] == value[i + 1]);
        }
        lemma_leading_digits(rest, m);
        if n > 0 && n < value.len() {
            assert(rest[n - 1] == value[n]);
        }
        assert forall|i: int| 0 <= i < leading_digits(value) implies is_digit(
            #[trigger] value[i],
        ) by {
            if i > 0 {
                assert(rest[i - 1] == value[i]);
            }
        }
    }
}

/// Why a text spells no natural number of 64 bits.
pub fn natural_words(value: &str) -> (r: &'static str)
    ensures
        r@ == natural_complaint(value@),
{
    let cs = chars_of(value);
    if cs.len() == 0 {
        return "cannot parse integer from empty string";
    }
    let mut i: usize = if cs.len() > 1 && cs[0] == '+' {
        1
    } else {
        0
    };
    let ghost start = i as int;
    let ghost part = unsigned_part(value@);
    let mut n: u64 = 0;
    proof {
        assert(part =~= value@.skip(start));
        assert(part.take(0).len() == 0);
    }
    while i < cs.len() && '0' <= cs[i] && cs[i] <= '9'
        invariant
            start <= i <= cs.len(),
            0 <= start,
            cs@ == value@,
            value@.len() > 0,
            part == value@.skip(start),
            part == unsigned_part(value@),
            n as nat == number_of(part.take(i - start)),
            forall|k: int| 0 <= k < i - start ==> is_digit(#[trigger] part[k]),
        decreases cs.len() - i,
    {
        let d: u64 = (cs[i] as u32 - '0' as u32) as u64;
        let ghost m = number_of(part.take(i - start));
        proof {
            assert(part[i - start] == cs@[i as int]);
            assert(part.take(i + 1 - start).drop_last() =~= part.take(i - start));
            assert(number_of(part.take(i + 1 - start)) == m * 10 + d);
        }
        if n > (u64::MAX - d) / 10 {
            proof {
                assert(m * 10 + d > u64::MAX) by (nonlinear_arith)
                    requires
                        m > (u64::MAX - d) / 10,
                        d <= 9,
                ;
                lemma_leading_digits(part, i + 1 - start);
                let digits = part.take(leading_digits(part) as int);
                lemma_number_grows(digits, i + 1 - start);
                assert(digits.take(i + 1 - start) =~= part.take(i + 1 - start));
            }
            return "number too large to fit in target type";
        }
        proof {
            assert(n * 10 + d <= u64::MAX) by (nonlinear_arith)
                requires
                    n <= (u64::MAX - d) / 10,
                    d <= 9,
            ;
        }
        n = n * 10 + d;
        i = i + 1;
    }
    proof {
        if i < cs.len() {
            assert(part[i - start] == cs@[i as int]);
        }
        lemma_leading_digits(part, i - start);
    }
    "invalid digit found in string"
}

} // verus!
