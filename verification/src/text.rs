//! Text handling shared by the route-table reader and the command-line reader:
//! splitting a line into fields, reading decimal numbers, and cutting a
//! command line into words.

use vstd::prelude::*;

verus! {

/// `String::push` appends one character at the end of the string.
pub assume_specification[ String::push ](s: &mut String, c: char)
    ensures
        final(s)@ == old(s)@.push(c),
;

/// The texts of a sequence of strings.
pub open spec fn texts(v: Seq<String>) -> Seq<Seq<char>> {
    Seq::new(v.len(), |i: int| v[i]@)
}

/// The fields of `line`: the stretches between one occurrence of `sep` and the
/// next. A line without `sep` is one field; two separators in a row, or one at
/// either end, bound an empty field.
pub open spec fn split_fields(line: Seq<char>, sep: char) -> Seq<Seq<char>>
    decreases line.len(),
{
    if line.len() == 0 {
        seq![Seq::empty()]
    } else {
        let before = split_fields(line.drop_last(), sep);
        if line.last() == sep {
            before.push(Seq::empty())
        } else {
            before.drop_last().push(before.last().push(line.last()))
        }
    }
}

/// `fields` put back together with `sep` between each two neighbours.
pub open spec fn join_fields(fields: Seq<Seq<char>>, sep: char) -> Seq<char>
    decreases fields.len(),
{
    if fields.len() == 0 {
        Seq::empty()
    } else if fields.len() == 1 {
        fields[0]
    } else {
        join_fields(fields.drop_last(), sep).push(sep) + fields.last()
    }
}

pub open spec fn is_digit(c: char) -> bool {
    '0' <= c <= '9'
}

pub open spec fn digit_value(c: char) -> nat {
    (c as int - '0' as int) as nat
}

pub open spec fn all_digits(s: Seq<char>) -> bool {
    forall|i: int| 0 <= i < s.len() ==> is_digit(#[trigger] s[i])
}

/// The number that a run of decimal digits denotes.
pub open spec fn decimal_value(s: Seq<char>) -> nat
    decreases s.len(),
{
    if s.len() == 0 {
        0
    } else {
        10 * decimal_value(s.drop_last()) + digit_value(s.last())
    }
}

/// Whether `s` starts with the character `c`.
pub open spec fn starts_with(s: Seq<char>, c: char) -> bool {
    s.len() > 0 && s[0] == c
}

/// Reading of an unsigned decimal numeral: an optional `+`, then one or more
/// digits, denoting a number that is at most `max`.
pub open spec fn parse_unsigned(s: Seq<char>, max: nat) -> Option<nat> {
    let digits = if starts_with(s, '+') {
        s.drop_first()
    } else {
        s
    };
    if digits.len() > 0 && all_digits(digits) && decimal_value(digits) <= max {
        Some(decimal_value(digits))
    } else {
        None
    }
}

/// Reading of a signed decimal numeral: an optional `+` or `-`, then one or
/// more digits, denoting a number from `min` to `max`.
pub open spec fn parse_signed(s: Seq<char>, min: int, max: int) -> Option<int> {
    let digits = if starts_with(s, '+') || starts_with(s, '-') {
        s.drop_first()
    } else {
        s
    };
    let value = if starts_with(s, '-') {
        -(decimal_value(digits) as int)
    } else {
        decimal_value(digits) as int
    };
    if digits.len() > 0 && all_digits(digits) && min <= value <= max {
        Some(value)
    } else {
        None
    }
}

pub open spec fn parse_u32_spec(s: Seq<char>) -> Option<u32> {
    match parse_unsigned(s, 0xFFFF_FFFF) {
        Some(v) => Some(v as u32),
        None => None,
    }
}

pub open spec fn parse_i32_spec(s: Seq<char>) -> Option<i32> {
    match parse_signed(s, -0x8000_0000, 0x7FFF_FFFF) {
        Some(v) => Some(v as i32),
        None => None,
    }
}

/// The characters with the Unicode property `White_Space`.
pub open spec fn is_whitespace(c: char) -> bool {
    let u = c as u32;
    ||| 0x09 <= u <= 0x0D
    ||| u == 0x20
    ||| u == 0x85
    ||| u == 0xA0
    ||| u == 0x1680
    ||| 0x2000 <= u <= 0x200A
    ||| u == 0x2028
    ||| u == 0x2029
    ||| u == 0x202F
    ||| u == 0x205F
    ||| u == 0x3000
}

/// The words of `s`: its longest stretches without whitespace, in order.
pub open spec fn words(s: Seq<char>) -> Seq<Seq<char>>
    decreases s.len(),
{
    if s.len() == 0 {
        Seq::empty()
    } else {
        let before = words(s.drop_last());
        if is_whitespace(s.last()) {
            before
        } else if s.len() >= 2 && !is_whitespace(s[s.len() - 2]) {
            before.drop_last().push(before.last().push(s.last()))
        } else {
            before.push(seq![s.last()])
        }
    }
}

/// `s` without the occurrences of `c`.
pub open spec fn without_char(s: Seq<char>, c: char) -> Seq<char>
    decreases s.len(),
{
    if s.len() == 0 {
        Seq::empty()
    } else if s.last() == c {
        without_char(s.drop_last(), c)
    } else {
        without_char(s.drop_last(), c).push(s.last())
    }
}

/// The value of a run of digits does not shrink when digits are appended.
pub proof fn lemma_decimal_value_grows(s: Seq<char>, n: int)
    requires
        0 <= n <= s.len(),
    ensures
        decimal_value(s.take(n)) <= decimal_value(s),
    decreases s.len() - n,
{
    if n == s.len() {
        assert(s.take(n) =~= s);
    } else {
        lemma_decimal_value_grows(s, n + 1);
        assert(s.take(n + 1).drop_last() =~= s.take(n));
    }
}

/// Splitting never yields nothing, no field holds the separator, and joining
/// the fields with the separator gives the line back.
pub proof fn lemma_split_then_join(line: Seq<char>, sep: char)
    ensures
        split_fields(line, sep).len() >= 1,
        forall|i: int, j: int|
            0 <= i < split_fields(line, sep).len() && 0 <= j < split_fields(line, sep)[i].len()
                ==> split_fields(line, sep)[i][j] != sep,
        join_fields(split_fields(line, sep), sep) == line,
    decreases line.len(),
{
    if line.len() == 0 {
        assert(join_fields(split_fields(line, sep), sep) =~= line);
    } else {
        let before = split_fields(line.drop_last(), sep);
        let all = split_fields(line, sep);
        lemma_split_then_join(line.drop_last(), sep);
        if line.last() == sep {
            assert(all.drop_last() =~= before);
            assert(join_fields(all, sep) =~= line);
        } else {
            let grown = before.last().push(line.last());
            if before.len() == 1 {
                assert(before[0] == line.drop_last());
                assert(join_fields(all, sep) =~= line);
            } else {
                assert(all.drop_last() =~= before.drop_last());
                let head = join_fields(before.drop_last(), sep).push(sep);
                assert(join_fields(before, sep) == head + before.last());
                assert(join_fields(all, sep) == head + grown);
                assert(head + grown =~= (head + before.last()).push(line.last()));
                assert(line.drop_last().push(line.last()) =~= line);
            }
        }
    }
}

/// The characters of a string, in order.
pub fn chars_of(s: &str) -> (v: Vec<char>)
    ensures
        v@ == s@,
{
    let mut v: Vec<char> = Vec::new();
    for c in it: s.chars()
        invariant
            it.seq() == s@,
            v@ == s@.take(it.index() as int),
    {
        v.push(c);
    }
    v
}

/// Tells whether two strings hold the same text.
pub fn same_text(x: &str, y: &str) -> (same: bool)
    ensures
        same == (x@ == y@),
{
    let xs = chars_of(x);
    let ys = chars_of(y);
    if xs.len() != ys.len() {
        return false;
    }
    let mut i: usize = 0;
    while i < xs.len()
        invariant
            i <= xs.len() == ys.len(),
            xs@ == x@,
            ys@ == y@,
            xs@.take(i as int) == ys@.take(i as int),
        decreases xs.len() - i,
    {
        if xs[i] != ys[i] {
            return false;
        }
        assert(xs@.take(i + 1) =~= xs@.take(i as int).push(xs@[i as int]));
        assert(ys@.take(i + 1) =~= ys@.take(i as int).push(ys@[i as int]));
        i = i + 1;
    }
    assert(xs@.take(i as int) =~= xs@ && ys@.take(i as int) =~= ys@);
    true
}

/// The string made of `chars[from..to]`.
pub fn string_of(chars: &Vec<char>, from: usize, to: usize) -> (s: String)
    requires
        from <= to <= chars.len(),
    ensures
        s@ == chars@.subrange(from as int, to as int),
{
    let mut s = String::new();
    let mut i: usize = from;
    while i < to
        invariant
            from <= i <= to <= chars.len(),
            s@ == chars@.subrange(from as int, i as int),
        decreases to - i,
    {
        s.push(chars[i]);
        i = i + 1;
        assert(s@ =~= chars@.subrange(from as int, i as int));
    }
    s
}

/// Cuts a line into its fields at each `sep`: there is at least one field, no
/// field holds `sep`, and the fields joined by `sep` are the line.
pub fn split_line(line: &str, sep: char) -> (fields: Vec<String>)
    ensures
        texts(fields@) == split_fields(line@, sep),
        fields@.len() >= 1,
        join_fields(texts(fields@), sep) == line@,
        forall|i: int, j: int|
            0 <= i < texts(fields@).len() && 0 <= j < texts(fields@)[i].len() ==> texts(
                fields@,
            )[i][j] != sep,
{
    let chars = chars_of(line);
    let mut fields: Vec<String> = Vec::new();
    let mut start: usize = 0;
    let mut i: usize = 0;
    assert(chars@.take(0) =~= Seq::empty());
    assert(texts(fields@).push(chars@.subrange(0, 0)) =~= seq![Seq::<char>::empty()]);
    while i < chars.len()
        invariant
            start <= i <= chars.len(),
            split_fields(chars@.take(i as int), sep) == texts(fields@).push(
                chars@.subrange(start as int, i as int),
            ),
        decreases chars.len() - i,
    {
        let ghost before = split_fields(chars@.take(i as int), sep);
        let ghost seen = texts(fields@);
        assert(chars@.take(i + 1).drop_last() =~= chars@.take(i as int));
        if chars[i] == sep {
            let field = string_of(&chars, start, i);
            fields.push(field);
            start = i + 1;
            assert(texts(fields@) =~= seen.push(field@));
            assert(chars@.subrange(start as int, start as int) =~= Seq::empty());
        } else {
            assert(before.drop_last() =~= seen);
            assert(chars@.subrange(start as int, i + 1) =~= chars@.subrange(
                start as int,
                i as int,
            ).push(chars@[i as int]));
        }
        i = i + 1;
    }
    assert(chars@.take(i as int) =~= chars@);
    let ghost seen = texts(fields@);
    let field = string_of(&chars, start, i);
    fields.push(field);
    assert(texts(fields@) =~= seen.push(field@));
    proof {
        lemma_split_then_join(line@, sep);
    }
    fields
}

/// Reads the digits `chars[start..]` as a number that is at most `limit`.
fn parse_magnitude(chars: &Vec<char>, start: usize, limit: u64) -> (r: Option<u64>)
    requires
        start <= chars.len(),
        limit <= 0xFFFF_FFFF,
    ensures
        ({
            let digits = chars@.subrange(start as int, chars.len() as int);
            r == if digits.len() > 0 && all_digits(digits) && decimal_value(digits) <= limit {
                Some(decimal_value(digits) as u64)
            } else {
                None
            }
        }),
{
    let ghost digits = chars@.subrange(start as int, chars.len() as int);
    if start == chars.len() {
        return None;
    }
    let mut value: u64 = 0;
    let mut i: usize = start;
    assert(digits.take(0) =~= Seq::empty());
    while i < chars.len()
        invariant
            start <= i <= chars.len(),
            digits == chars@.subrange(start as int, chars.len() as int),
            all_digits(digits.take(i - start)),
            value == decimal_value(digits.take(i - start)),
            value <= limit <= 0xFFFF_FFFF,
        decreases chars.len() - i,
    {
        let c: char = chars[i];
        assert(digits[i - start] == c);
        if !('0' <= c && c <= '9') {
            return None;
        }
        let d: u64 = (c as u32 - '0' as u32) as u64;
        let next: u64 = value * 10 + d;
        proof {
            assert(digits.take(i + 1 - start).drop_last() =~= digits.take(i - start));
            assert(next == decimal_value(digits.take(i + 1 - start)));
            lemma_decimal_value_grows(digits, i + 1 - start);
        }
        if next > limit {
            return None;
        }
        value = next;
        i = i + 1;
    }
    assert(digits.take(i - start) =~= digits);
    Some(value)
}

/// Reads an unsigned decimal number that fits in 32 bits.
pub fn parse_u32(text: &str) -> (r: Option<u32>)
    ensures
        r == parse_u32_spec(text@),
{
    let chars = chars_of(text);
    let start: usize = if chars.len() > 0 && chars[0] == '+' {
        1
    } else {
        0
    };
    assert(chars@.subrange(0, chars.len() as int) =~= chars@);
    assert(chars.len() > 0 ==> chars@.subrange(1, chars.len() as int) =~= chars@.drop_first());
    match parse_magnitude(&chars, start, 0xFFFF_FFFF) {
        Some(v) => Some(v as u32),
        None => None,
    }
}

/// Reads a signed decimal number that fits in 32 bits.
pub fn parse_i32(text: &str) -> (r: Option<i32>)
    ensures
        r == parse_i32_spec(text@),
{
    let chars = chars_of(text);
    let negative: bool = chars.len() > 0 && chars[0] == '-';
    let start: usize = if chars.len() > 0 && (chars[0] == '+' || chars[0] == '-') {
        1
    } else {
        0
    };
    let limit: u64 = if negative {
        0x8000_0000
    } else {
        0x7FFF_FFFF
    };
    assert(chars@.subrange(0, chars.len() as int) =~= chars@);
    assert(chars.len() > 0 ==> chars@.subrange(1, chars.len() as int) =~= chars@.drop_first());
    match parse_magnitude(&chars, start, limit) {
        Some(v) => {
            if negative {
                Some((0 - v as i64) as i32)
            } else {
                Some(v as i32)
            }
        },
        None => None,
    }
}

/// Tells whether `c` is whitespace.
pub fn char_is_whitespace(c: char) -> (w: bool)
    ensures
        w == is_whitespace(c),
{
    let u: u32 = c as u32;
    (0x09 <= u && u <= 0x0D) || u == 0x20 || u == 0x85 || u == 0xA0 || u == 0x1680 || (0x2000 <= u
        && u <= 0x200A) || u == 0x2028 || u == 0x2029 || u == 0x202F || u == 0x205F || u == 0x3000
}

/// A copy of `text` in which no `c` is left.
pub fn remove_char(text: &str, c: char) -> (s: String)
    ensures
        s@ == without_char(text@, c),
{
    let chars = chars_of(text);
    let mut s = String::new();
    let mut i: usize = 0;
    assert(chars@.take(0) =~= Seq::empty());
    while i < chars.len()
        invariant
            i <= chars.len(),
            s@ == without_char(chars@.take(i as int), c),
        decreases chars.len() - i,
    {
        assert(chars@.take(i + 1).drop_last() =~= chars@.take(i as int));
        if chars[i] != c {
            s.push(chars[i]);
        }
        i = i + 1;
    }
    assert(chars@.take(i as int) =~= chars@);
    s
}

/// Cuts a text into its words at whitespace.
pub fn split_words(text: &str) -> (found: Vec<String>)
    ensures
        texts(found@) == words(text@),
{
    let chars = chars_of(text);
    let mut found: Vec<String> = Vec::new();
    let mut start: usize = 0;
    let mut inside: bool = false;
    let mut i: usize = 0;
    assert(chars@.take(0) =~= Seq::empty());
    assert(texts(found@) =~= Seq::empty());
    while i < chars.len()
        invariant
            start <= i <= chars.len(),
            inside <==> i > 0 && !is_whitespace(chars@[i - 1]),
            inside ==> start < i,
            words(chars@.take(i as int)) == if inside {
                texts(found@).push(chars@.subrange(start as int, i as int))
            } else {
                texts(found@)
            },
        decreases chars.len() - i,
    {
        let ghost seen = texts(found@);
        let ghost before = words(chars@.take(i as int));
        assert(chars@.take(i + 1).drop_last() =~= chars@.take(i as int));
        assert(i > 0 ==> chars@.take(i + 1)[i - 1] == chars@[i - 1]);
        if char_is_whitespace(chars[i]) {
            if inside {
                let word = string_of(&chars, start, i);
                found.push(word);
                assert(texts(found@) =~= seen.push(word@));
            }
            inside = false;
        } else {
            if inside {
                assert(before.drop_last() =~= seen);
                assert(chars@.subrange(start as int, i + 1) =~= chars@.subrange(
                    start as int,
                    i as int,
                ).push(chars@[i as int]));
            } else {
                start = i;
                assert(chars@.subrange(start as int, i + 1) =~= seq![chars@[i as int]]);
            }
            inside = true;
        }
        i = i + 1;
    }
    assert(chars@.take(i as int) =~= chars@);
    if inside {
        let ghost seen = texts(found@);
        let word = string_of(&chars, start, i);
        found.push(word);
        assert(texts(found@) =~= seen.push(word@));
    }
    found
}

} // verus!
