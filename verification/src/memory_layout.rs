//! Sizes and addresses as they are written in the description of a memory layout.
use vstd::prelude::*;

verus! {

/// Whether a character is white space, as Unicode has it.
pub open spec fn is_space(c: char) -> bool {
    ||| 0x09 <= c as u32 <= 0x0d
    ||| c as u32 == 0x20
    ||| c as u32 == 0x85
    ||| c as u32 == 0xa0
    ||| c as u32 == 0x1680
    ||| 0x2000 <= c as u32 <= 0x200a
    ||| c as u32 == 0x2028
    ||| c as u32 == 0x2029
    ||| c as u32 == 0x202f
    ||| c as u32 == 0x205f
    ||| c as u32 == 0x3000
}

/// The text without white space at both ends.
pub open spec fn trimmed(s: Seq<char>) -> Seq<char>
    decreases s.len(),
{
    if s.len() == 0 {
        s
    } else if is_space(s[0]) {
        trimmed(s.drop_first())
    } else if is_space(s.last()) {
        trimmed(s.drop_last())
    } else {
        s
    }
}

/// The value of a digit; `None` if it is none in the given radix.
pub open spec fn digit(c: char, radix: int) -> Option<int> {
    let value = if '0' <= c <= '9' {
        c as u32 - 0x30
    } else if 'A' <= c <= 'Z' {
        c as u32 - 0x41 + 10
    } else if 'a' <= c <= 'z' {
        c as u32 - 0x61 + 10
    } else {
        radix
    };
    if value < radix {
        Some(value)
    } else {
        None
    }
}

/// The number that digits stand for; `None` if one of them is not a digit. (No digits stand
/// for 0 here.)
pub open spec fn digits(s: Seq<char>, radix: int) -> Option<nat>
    decreases s.len(),
{
    if s.len() == 0 {
        Some(0)
    } else {
        match (digits(s.drop_last(), radix), digit(s.last(), radix)) {
            (Some(high), Some(low)) => Some((high * radix + low) as nat),
            _ => None,
        }
    }
}

/// The 64-bit number that at least one digit stands for.
pub open spec fn plain_unsigned(s: Seq<char>, radix: int) -> Option<u64> {
    if s.len() == 0 {
        None
    } else {
        match digits(s, radix) {
            Some(n) => if n <= u64::MAX {
                Some(n as u64)
            } else {
                None
            },
            None => None,
        }
    }
}

/// The 64-bit number that at least one digit stands for, with or without a plus sign before it.
pub open spec fn unsigned(s: Seq<char>, radix: int) -> Option<u64> {
    if s.len() > 0 && s[0] == '+' {
        plain_unsigned(s.skip(1), radix)
    } else {
        plain_unsigned(s, radix)
    }
}

/// A number: hexadecimal behind `0x` or `0X`, or else decimal.
pub open spec fn number(s: Seq<char>) -> Option<u64> {
    let t = trimmed(s);
    if t.len() >= 2 && t[0] == '0' && (t[1] == 'x' || t[1] == 'X') {
        unsigned(t.skip(2), 16)
    } else {
        unsigned(t, 10)
    }
}

/// The product, if it fits 64 bits.
pub open spec fn scaled(n: Option<u64>, unit: int) -> Option<u64> {
    match n {
        Some(n) => if n * unit <= u64::MAX {
            Some((n * unit) as u64)
        } else {
            None
        },
        None => None,
    }
}

/// A size: a number, in kilobytes before a `K` and in megabytes before an `M`.
pub open spec fn size_literal(s: Seq<char>) -> Option<u64> {
    let t = trimmed(s);
    if t.len() > 0 && t.last() == 'K' {
        scaled(number(t.drop_last()), 1024)
    } else if t.len() > 0 && t.last() == 'M' {
        scaled(number(t.drop_last()), 1048576)
    } else {
        number(t)
    }
}

/// Whether a character is `+` or `-`.
pub open spec fn is_operator(c: char) -> bool {
    c == '+' || c == '-'
}

/// Whether a character is a bracket, which counts for nothing.
pub open spec fn is_bracket(c: char) -> bool {
    c == '(' || c == ')'
}

/// The text without brackets.
pub open spec fn without_brackets(s: Seq<char>) -> Seq<char> {
    s.filter(|c: char| !is_bracket(c))
}

/// The value of one term; a term without anything in it counts for nothing.
pub open spec fn term(s: Seq<char>) -> Option<int> {
    let t = without_brackets(s);
    if trimmed(t).len() == 0 {
        Some(0)
    } else {
        match size_literal(t) {
            Some(n) => Some(n as int),
            None => None,
        }
    }
}

/// Where the last operator stands; -1 if there is none.
pub open spec fn last_operator(s: Seq<char>) -> int
    decreases s.len(),
{
    if s.len() == 0 {
        -1
    } else if is_operator(s.last()) {
        s.len() - 1
    } else {
        last_operator(s.drop_last())
    }
}

/// The operator is the last one.
proof fn lemma_last_operator(s: Seq<char>)
    ensures
        -1 <= last_operator(s) < s.len(),
    decreases s.len(),
{
    if s.len() > 0 && !is_operator(s.last()) {
        lemma_last_operator(s.drop_last());
    }
}

/// The sum as it is written: terms with `+` and `-` between them. `None` if one of the terms
/// cannot be read, or if a sum on the way does not fit 128 bits.
pub open spec fn sum(s: Seq<char>) -> Option<int>
    decreases s.len(),
    via sum_is_shorter
{
    let i = last_operator(s);
    if i < 0 {
        term(s)
    } else {
        match (sum(s.take(i)), term(s.skip(i + 1))) {
            (Some(left), Some(right)) => {
                let total = if s[i] == '-' {
                    left - right
                } else {
                    left + right
                };
                if i128::MIN <= total <= i128::MAX {
                    Some(total)
                } else {
                    None
                }
            },
            _ => None,
        }
    }
}

#[via_fn]
proof fn sum_is_shorter(s: Seq<char>) {
    lemma_last_operator(s);
}

/// The value of an expression with `+` and `-` of sizes, in 64 bits; `None` if it is negative
/// or cannot be read.
pub open spec fn expression(s: Seq<char>) -> Option<u64> {
    match sum(s) {
        Some(total) => if total < 0 {
            None
        } else {
            Some((total % 0x1_0000_0000_0000_0000) as u64)
        },
        None => None,
    }
}

/// Whether a character is white space, as Unicode has it.
fn space(c: char) -> (r: bool)
    ensures
        r == is_space(c),
{
    let code: u32 = c as u32;
    (0x09 <= code && code <= 0x0d) || code == 0x20 || code == 0x85 || code == 0xa0 || code == 0x1680
        || (0x2000 <= code && code <= 0x200a) || code == 0x2028 || code == 0x2029 || code == 0x202f
        || code == 0x205f || code == 0x3000
}

/// The text without white space at both ends.
fn trim(s: &[char]) -> (r: &[char])
    ensures
        r@ == trimmed(s@),
{
    let mut start: usize = 0;
    let mut end: usize = s.len();
    assert(s@.subrange(0, end as int) =~= s@);
    while start < end && space(s[start])
        invariant
            start <= end <= s@.len(),
            trimmed(s@) == trimmed(s@.subrange(start as int, end as int)),
        decreases end - start,
    {
        assert(s@.subrange(start as int, end as int).drop_first() =~= s@.subrange(
            start + 1,
            end as int,
        ));
        start = start + 1;
    }
    assert(start < end ==> !is_space(s@[start as int]));
    while start < end && space(s[end - 1])
        invariant
            start <= end <= s@.len(),
            start < end ==> !is_space(s@[start as int]),
            trimmed(s@) == trimmed(s@.subrange(start as int, end as int)),
        decreases end - start,
    {
        assert(s@.subrange(start as int, end as int).drop_last() =~= s@.subrange(
            start as int,
            end - 1,
        ));
        end = end - 1;
    }
    vstd::slice::slice_subrange(s, start, end)
}

/// The value of a digit.
fn digit_value(c: char, radix: u64) -> (r: Option<u64>)
    requires
        radix <= 36,
    ensures
        match r {
            Some(value) => digit(c, radix as int) == Some(value as int) && value < radix,
            None => digit(c, radix as int) is None,
        },
{
    let code: u32 = c as u32;
    let value: u64 = if '0' <= c && c <= '9' {
        (code - 0x30) as u64
    } else if 'A' <= c && c <= 'Z' {
        (code - 0x41) as u64 + 10
    } else if 'a' <= c && c <= 'z' {
        (code - 0x61) as u64 + 10
    } else {
        radix
    };
    if value < radix {
        Some(value)
    } else {
        None
    }
}

/// What is not a number stays none, and what is too large stays too large, with more digits.
proof fn lemma_digits_prefix(s: Seq<char>, radix: int, n: int)
    requires
        radix >= 2,
        0 <= n <= s.len(),
    ensures
        digits(s, radix) is Some ==> digits(s.take(n), radix) is Some,
        digits(s, radix) is Some ==> digits(s, radix)->Some_0 >= digits(s.take(n), radix)->Some_0,
    decreases s.len(),
{
    if n == s.len() {
        assert(s.take(n) =~= s);
    } else {
        lemma_digits_prefix(s.drop_last(), radix, n);
        assert(s.drop_last().take(n) =~= s.take(n));
        if digits(s, radix) is Some {
            let (high, low) = (
                digits(s.drop_last(), radix)->Some_0 as int,
                digit(s.last(), radix)->Some_0,
            );
            assert(high * radix + low >= high) by (nonlinear_arith)
                requires
                    high >= 0,
                    low >= 0,
                    radix >= 2,
            ;
        }
    }
}

/// Reads a 64-bit number of at least one digit, with or without a plus sign before it.
fn parse_unsigned(s: &[char], radix: u64) -> (r: Option<u64>)
    requires
        2 <= radix <= 36,
    ensures
        r == unsigned(s@, radix as int),
{
    if s.len() > 0 && s[0] == '+' {
        let rest = vstd::slice::slice_subrange(s, 1, s.len());
        assert(rest@ =~= s@.skip(1));
        parse_plain_unsigned(rest, radix)
    } else {
        parse_plain_unsigned(s, radix)
    }
}

/// Reads a 64-bit number of at least one digit.
fn parse_plain_unsigned(s: &[char], radix: u64) -> (r: Option<u64>)
    requires
        2 <= radix <= 36,
    ensures
        r == plain_unsigned(s@, radix as int),
{
    if s.len() == 0 {
        return None;
    }
    let mut n: u64 = 0;
    let mut i: usize = 0;
    while i < s.len()
        invariant
            i <= s@.len(),
            2 <= radix <= 36,
            digits(s@.take(i as int), radix as int) == Some(n as nat),
        decreases s@.len() - i,
    {
        proof {
            assert(s@.take(i + 1).drop_last() =~= s@.take(i as int));
            lemma_digits_prefix(s@, radix as int, i + 1);
        }
        let value: u64 = match digit_value(s[i], radix) {
            Some(value) => value,
            None => {
                return None;
            },
        };
        let shifted: u64 = match n.checked_mul(radix) {
            Some(shifted) => shifted,
            None => {
                return None;
            },
        };
        n = match shifted.checked_add(value) {
            Some(n) => n,
            None => {
                return None;
            },
        };
        i = i + 1;
    }
    assert(s@.take(i as int) =~= s@);
    Some(n)
}

/// Reads a number: hexadecimal behind `0x` or `0X`, or else decimal.
fn read_number(s: &[char]) -> (r: Option<u64>)
    ensures
        r == number(s@),
{
    let t = trim(s);
    if t.len() >= 2 && t[0] == '0' && (t[1] == 'x' || t[1] == 'X') {
        let hex = vstd::slice::slice_subrange(t, 2, t.len());
        assert(hex@ =~= t@.skip(2));
        parse_unsigned(hex, 16)
    } else {
        parse_unsigned(t, 10)
    }
}

/// Reads a size: a number, in kilobytes before a `K` and in megabytes before an `M`.
fn read_size_literal(s: &[char]) -> (r: Option<u64>)
    ensures
        r == size_literal(s@),
{
    let t = trim(s);
    if t.len() > 0 && (t[t.len() - 1] == 'K' || t[t.len() - 1] == 'M') {
        let unit: u64 = if t[t.len() - 1] == 'K' {
            1024
        } else {
            1024 * 1024
        };
        let num = vstd::slice::slice_subrange(t, 0, t.len() - 1);
        assert(num@ =~= t@.drop_last());
        match read_number(num) {
            Some(v) => v.checked_mul(unit),
            None => None,
        }
    } else {
        read_number(t)
    }
}

/// Trimming twice does no more than trimming once.
proof fn lemma_trimmed_twice(s: Seq<char>)
    ensures
        trimmed(trimmed(s)) == trimmed(s),
    decreases s.len(),
{
    if s.len() > 0 {
        if is_space(s[0]) {
            lemma_trimmed_twice(s.drop_first());
        } else if is_space(s.last()) {
            lemma_trimmed_twice(s.drop_last());
        }
    }
}

/// Adds the value of a term, brackets left out already, to a sum.
fn flush(token: &Vec<char>, acc: i128, negative: bool) -> (r: Option<i128>)
    ensures
        match (if trimmed(token@).len() == 0 {
            Some(0int)
        } else {
            match size_literal(token@) {
                Some(n) => Some(n as int),
                None => None,
            }
        }) {
            None => r is None,
            Some(value) => {
                let total = if negative {
                    acc - value
                } else {
                    acc + value
                };
                match r {
                    Some(sum) => sum == total,
                    None => !(i128::MIN <= total <= i128::MAX),
                }
            },
        },
{
    let t = trim(token.as_slice());
    if t.len() == 0 {
        return Some(acc);
    }
    proof {
        lemma_trimmed_twice(token@);
    }
    let value: i128 = match read_size_literal(t) {
        Some(value) => value as i128,
        None => {
            return None;
        },
    };
    if negative {
        acc.checked_sub(value)
    } else {
        acc.checked_add(value)
    }
}

/// Without an operator at its end, a longer text has the same last operator.
proof fn lemma_last_operator_push(s: Seq<char>, c: char)
    ensures
        last_operator(s.push(c)) == (if is_operator(c) {
            s.len() as int
        } else {
            last_operator(s)
        }),
{
    assert(s.push(c).drop_last() =~= s);
}

/// A text whose beginning cannot be read cannot be read.
proof fn lemma_sum_stopped(s: Seq<char>, i: int)
    requires
        0 <= i < s.len(),
        is_operator(s[i]),
        sum(s.take(i)) is None,
    ensures
        sum(s) is None,
    decreases s.len(),
{
    lemma_last_operator(s);
    let j = last_operator(s);
    lemma_is_last_operator(s, i);
    if j > i {
        assert(s.take(j).take(i) =~= s.take(i));
        assert(s.take(j)[i] == s[i]);
        lemma_sum_stopped(s.take(j), i);
    }
}

/// No operator stands behind the last one.
proof fn lemma_is_last_operator(s: Seq<char>, i: int)
    requires
        0 <= i < s.len(),
        is_operator(s[i]),
    ensures
        i <= last_operator(s),
        is_operator(s[last_operator(s)]),
    decreases s.len(),
{
    lemma_last_operator(s);
    if !is_operator(s.last()) {
        lemma_is_last_operator(s.drop_last(), i);
        lemma_last_operator(s.drop_last());
    }
}

/// Evaluates an expression with `+` and `-` of sizes.
fn read_expression(s: &[char]) -> (r: Option<u64>)
    ensures
        r == expression(s@),
{
    let mut acc: i128 = 0;
    let mut cur: Vec<char> = Vec::new();
    let mut negative: bool = false;
    let mut i: usize = 0;
    let ghost pred = |c: char| !is_bracket(c);
    assert(s@.take(0).filter(pred) =~= Seq::<char>::empty()) by {
        reveal(Seq::filter);
    }
    assert(s@.take(0).skip(0) =~= s@.take(0));
    while i < s.len()
        invariant
            i <= s@.len(),
            pred == (|c: char| !is_bracket(c)),
            ({
                let done = s@.take(i as int);
                let at = last_operator(done);
                &&& -1 <= at < i
                &&& cur@ == done.skip(at + 1).filter(pred)
                &&& at < 0 ==> acc == 0 && !negative
                &&& at >= 0 ==> sum(done.take(at)) == Some(acc as int) && negative == (done[at]
                    == '-')
            }),
        decreases s@.len() - i,
    {
        let ch: char = s[i];
        let ghost done = s@.take(i as int);
        let ghost at = last_operator(done);
        proof {
            assert(s@.take(i + 1) =~= done.push(ch));
            lemma_last_operator_push(done, ch);
            lemma_last_operator(done);
        }
        if ch == '+' || ch == '-' {
            let flushed = flush(&cur, acc, negative);
            proof {
                assert(done.push(ch).take(i as int) =~= done);
                assert(at < 0 ==> done.skip(at + 1) =~= done);
                if flushed is None {
                    lemma_sum_stopped(s@, i as int);
                }
                assert(done.push(ch).skip(i + 1) =~= Seq::<char>::empty());
                assert(Seq::<char>::empty().filter(pred) =~= Seq::<char>::empty()) by {
                    reveal(Seq::filter);
                }
            }
            acc =
            match flushed {
                Some(acc) => acc,
                None => {
                    return None;
                },
            };
            cur = Vec::new();
            negative = ch == '-';
        } else {
            proof {
                let rest = done.skip(at + 1);
                assert(done.push(ch).skip(at + 1) =~= rest.push(ch));
                assert(rest.push(ch).drop_last() =~= rest);
                assert(rest.push(ch).filter(pred) == (if pred(ch) {
                    rest.filter(pred).push(ch)
                } else {
                    rest.filter(pred)
                })) by {
                    reveal(Seq::filter);
                }
                if at >= 0 {
                    assert(done.push(ch).take(at) =~= done.take(at));
                }
            }
            if ch != '(' && ch != ')' {
                cur.push(ch);
            }
        }
        i = i + 1;
    }
    proof {
        assert(s@.take(i as int) =~= s@);
        assert(last_operator(s@) < 0 ==> s@.skip(last_operator(s@) + 1) =~= s@);
    }
    let total: i128 = match flush(&cur, acc, negative) {
        Some(total) => total,
        None => {
            return None;
        },
    };
    if total < 0 {
        None
    } else {
        let low: u128 = total as u128 % 0x1_0000_0000_0000_0000;
        Some(low as u64)
    }
}

/// The characters of a text.
fn chars_of(s: &str) -> (r: Vec<char>)
    ensures
        r@ == s@,
{
    let len: usize = s.unicode_len();
    let mut chars: Vec<char> = Vec::new();
    let mut i: usize = 0;
    while i < len
        invariant
            i <= len,
            len == s@.len(),
            chars@ =~= s@.take(i as int),
        decreases len - i,
    {
        chars.push(s.get_char(i));
        i = i + 1;
    }
    chars
}

/// Reads a number: hexadecimal behind `0x` or `0X`, or else decimal.
pub fn parse_number(s: &str) -> (r: Option<u64>)
    ensures
        r == number(s@),
{
    let chars = chars_of(s);
    read_number(chars.as_slice())
}

/// Reads a size: a number, in kilobytes before a `K` and in megabytes before an `M`.
pub fn parse_size_literal(s: &str) -> (r: Option<u64>)
    ensures
        r == size_literal(s@),
{
    let chars = chars_of(s);
    read_size_literal(chars.as_slice())
}

/// Evaluate a simple expression with + and - of literals supporting K/M/hex/dec.
/// Example: "0x10000000 + 2048K - 128K"
pub fn parse_add_sub_expr(s: &str) -> (r: Option<u64>)
    ensures
        r == expression(s@),
{
    let chars = chars_of(s);
    read_expression(chars.as_slice())
}

/// The first place from `i` on that is not white space.
pub open spec fn skip_space(s: Seq<char>, i: int) -> int
    decreases s.len() - i,
{
    if 0 <= i < s.len() && is_space(s[i]) {
        skip_space(s, i + 1)
    } else {
        i
    }
}

/// The place behind a word that stands at `i`; `None` if it does not stand there.
pub open spec fn behind(s: Seq<char>, i: int, word: Seq<char>) -> Option<int> {
    if i + word.len() <= s.len() && s.subrange(i, i + word.len()) == word {
        Some(i + word.len())
    } else {
        None
    }
}

/// The place behind a word that stands at a place, or after white space there.
pub open spec fn next_behind(s: Seq<char>, at: Option<int>, word: Seq<char>) -> Option<int> {
    match at {
        Some(i) => behind(s, skip_space(s, i), word),
        None => None,
    }
}

/// Where the origin of the region of the configuration variables is written, if its description
/// stands at `i`: `CV_FLASH : ORIGIN =`, with or without white space between.
pub open spec fn origin_start(s: Seq<char>, i: int) -> Option<int> {
    let name = behind(s, i, "CV_FLASH"@);
    let colon = next_behind(s, name, ":"@);
    let origin = next_behind(s, colon, "ORIGIN"@);
    match next_behind(s, origin, "="@) {
        Some(j) => Some(skip_space(s, j)),
        None => None,
    }
}

/// Where a length is written, if `, LENGTH =` stands at `p`, with or without white space between.
pub open spec fn length_start(s: Seq<char>, p: int) -> Option<int> {
    let comma = behind(s, p, ","@);
    let length = next_behind(s, comma, "LENGTH"@);
    match next_behind(s, length, "="@) {
        Some(j) => Some(skip_space(s, j)),
        None => None,
    }
}

/// Where the line that holds `i` ends.
pub open spec fn line_end(s: Seq<char>, i: int) -> int
    decreases s.len() - i,
{
    if 0 <= i < s.len() && s[i] != '\n' {
        line_end(s, i + 1)
    } else {
        i
    }
}

/// The last place before `end`, from `from` on, at which a length is announced; `None` if there
/// is none.
pub open spec fn origin_end(s: Seq<char>, from: int, end: int) -> Option<int>
    decreases end - from,
{
    if end <= from {
        None
    } else if length_start(s, end - 1) is Some {
        Some(end - 1)
    } else {
        origin_end(s, from, end - 1)
    }
}

/// The origin and the length, as they are written, in a description at `i`: the origin ends
/// where the length is announced on its line, and the length ends with its line.
pub open spec fn fields_at(s: Seq<char>, i: int) -> Option<(Seq<char>, Seq<char>)> {
    match origin_start(s, i) {
        Some(from) => match origin_end(s, from, line_end(s, from)) {
            Some(to) => {
                let q = length_start(s, to)->Some_0;
                Some((s.subrange(from, to), s.subrange(q, line_end(s, q))))
            },
            None => None,
        },
        None => None,
    }
}

/// The origin and the length in the first description from `i` on.
pub open spec fn fields_from(s: Seq<char>, i: int) -> Option<(Seq<char>, Seq<char>)>
    decreases s.len() - i,
{
    if i >= s.len() {
        None
    } else if fields_at(s, i) is Some {
        fields_at(s, i)
    } else {
        fields_from(s, i + 1)
    }
}

/// The origin and the length of the region of the configuration variables in the description of
/// a memory layout; `None` if there is no such region, or if one of the two cannot be read.
pub open spec fn cv_flash(s: Seq<char>) -> Option<(u64, u64)> {
    match fields_from(s, 0) {
        Some((origin, length)) => match (expression(origin), expression(length)) {
            (Some(origin), Some(length)) => Some((origin, length)),
            _ => None,
        },
        None => None,
    }
}

/// The first place from `i` on that is not white space.
fn find_text(s: &[char], i: usize) -> (r: usize)
    requires
        i <= s@.len(),
    ensures
        r == skip_space(s@, i as int),
        i <= r <= s@.len(),
{
    let mut j: usize = i;
    while j < s.len() && space(s[j])
        invariant
            i <= j <= s@.len(),
            skip_space(s@, i as int) == skip_space(s@, j as int),
        decreases s@.len() - j,
    {
        j = j + 1;
    }
    j
}

/// The place behind a word that stands at `i`.
fn find_behind(s: &[char], i: usize, word: &str) -> (r: Option<usize>)
    requires
        i <= s@.len(),
    ensures
        match r {
            Some(j) => behind(s@, i as int, word@) == Some(j as int) && i <= j <= s@.len(),
            None => behind(s@, i as int, word@) is None,
        },
{
    let len: usize = word.unicode_len();
    let total: usize = s.len();
    if len > total - i {
        return None;
    }
    let mut k: usize = 0;
    while k < len
        invariant
            k <= len,
            len == word@.len(),
            total == s@.len(),
            i + len <= total,
            forall|m: int| 0 <= m < k ==> s@.subrange(i as int, i + len)[m] == #[trigger] word@[m],
        decreases len - k,
    {
        if s[i + k] != word.get_char(k) {
            assert(s@.subrange(i as int, i + len)[k as int] != word@[k as int]);
            return None;
        }
        k = k + 1;
    }
    assert(s@.subrange(i as int, i + len) =~= word@);
    Some(i + len)
}

/// The place behind a word that stands at a place, or after white space there.
fn find_next_behind(s: &[char], at: Option<usize>, word: &str) -> (r: Option<usize>)
    requires
        at matches Some(i) ==> i <= s@.len(),
    ensures
        ({
            let place = match at {
                Some(i) => Some(i as int),
                None => None,
            };
            match r {
                Some(j) => next_behind(s@, place, word@) == Some(j as int) && j <= s@.len(),
                None => next_behind(s@, place, word@) is None,
            }
        }),
{
    match at {
        Some(i) => {
            let j: usize = find_text(s, i);
            find_behind(s, j, word)
        },
        None => None,
    }
}

/// Where the origin of the region is written, if its description stands at `i`.
fn find_origin(s: &[char], i: usize) -> (r: Option<usize>)
    requires
        i <= s@.len(),
    ensures
        match r {
            Some(j) => origin_start(s@, i as int) == Some(j as int) && j <= s@.len(),
            None => origin_start(s@, i as int) is None,
        },
{
    let name = find_behind(s, i, "CV_FLASH");
    let colon = find_next_behind(s, name, ":");
    let origin = find_next_behind(s, colon, "ORIGIN");
    match find_next_behind(s, origin, "=") {
        Some(j) => Some(find_text(s, j)),
        None => None,
    }
}

/// Where a length is written, if it is announced at `p`.
fn find_length(s: &[char], p: usize) -> (r: Option<usize>)
    requires
        p <= s@.len(),
    ensures
        match r {
            Some(j) => length_start(s@, p as int) == Some(j as int) && j <= s@.len(),
            None => length_start(s@, p as int) is None,
        },
{
    let comma = find_behind(s, p, ",");
    let length = find_next_behind(s, comma, "LENGTH");
    match find_next_behind(s, length, "=") {
        Some(j) => Some(find_text(s, j)),
        None => None,
    }
}

/// Where the line that holds `i` ends.
fn find_line_end(s: &[char], i: usize) -> (r: usize)
    requires
        i <= s@.len(),
    ensures
        r == line_end(s@, i as int),
        i <= r <= s@.len(),
{
    let mut j: usize = i;
    while j < s.len() && s[j] != '\n'
        invariant
            i <= j <= s@.len(),
            line_end(s@, i as int) == line_end(s@, j as int),
        decreases s@.len() - j,
    {
        j = j + 1;
    }
    j
}

/// The values of the origin and the length in a description at `i`; the outer `None` if there is
/// no description.
fn region_at(s: &[char], i: usize) -> (r: Option<Option<(u64, u64)>>)
    requires
        i <= s@.len(),
    ensures
        match fields_at(s@, i as int) {
            None => r is None,
            Some((origin, length)) => r == Some(
                match (expression(origin), expression(length)) {
                    (Some(origin), Some(length)) => Some((origin, length)),
                    _ => None,
                },
            ),
        },
{
    let from: usize = match find_origin(s, i) {
        Some(from) => from,
        None => {
            return None;
        },
    };
    let line: usize = find_line_end(s, from);
    let mut end: usize = line;
    while end > from
        invariant
            from <= end <= line <= s@.len(),
            i <= s@.len(),
            line == line_end(s@, from as int),
            origin_start(s@, i as int) == Some(from as int),
            origin_end(s@, from as int, line as int) == origin_end(s@, from as int, end as int),
        decreases end - from,
    {
        if let Some(q) = find_length(s, end - 1) {
            let stop: usize = find_line_end(s, q);
            let origin = read_expression(vstd::slice::slice_subrange(s, from, end - 1));
            let length = read_expression(vstd::slice::slice_subrange(s, q, stop));
            return match (origin, length) {
                (Some(origin), Some(length)) => Some(Some((origin, length))),
                _ => Some(None),
            };
        }
        end = end - 1;
    }
    None
}

/// Reads the origin and the length of the region of the configuration variables from the
/// description of a memory layout.
pub fn cv_flash_region(memory_x: &str) -> (r: Option<(u64, u64)>)
    ensures
        r == cv_flash(memory_x@),
{
    let chars = chars_of(memory_x);
    let s = chars.as_slice();
    let mut i: usize = 0;
    while i < s.len()
        invariant
            i <= s@.len(),
            s@ == memory_x@,
            fields_from(s@, 0) == fields_from(s@, i as int),
        decreases s@.len() - i,
    {
        if let Some(region) = region_at(s, i) {
            return region;
        }
        i = i + 1;
    }
    None
}

/// How a digit is written.
pub open spec fn digit_char(d: int, upper: bool) -> char {
    if d < 10 {
        (48 + d) as char
    } else if upper {
        (55 + d) as char
    } else {
        (87 + d) as char
    }
}

/// How a number is written, most significant digit first.
pub open spec fn written(n: nat, radix: int, upper: bool) -> Seq<char>
    decreases n,
{
    if radix < 2 || n < radix {
        seq![digit_char(n as int, upper)]
    } else {
        proof {
            lemma_shorter(n, radix);
        }
        written((n as int / radix) as nat, radix, upper).push(digit_char(n as int % radix, upper))
    }
}

/// A number without its last digit is smaller.
pub proof fn lemma_shorter(n: nat, radix: int)
    requires
        2 <= radix <= n,
    ensures
        0 <= n as int / radix < n,
{
    let m = n as int;
    assert(0 <= m / radix < m) by (nonlinear_arith)
        requires
            2 <= radix <= m,
    ;
}

/// What is written as a number consists of digits, and these stand for the number.
proof fn lemma_written(n: nat, radix: int, upper: bool)
    requires
        radix == 10 || radix == 16,
    ensures
        written(n, radix, upper).len() >= 1,
        digits(written(n, radix, upper), radix) == Some(n),
        forall|i: int|
            0 <= i < written(n, radix, upper).len() ==> digit(
                #[trigger] written(n, radix, upper)[i],
                radix,
            ) is Some,
    decreases n,
{
    reveal_with_fuel(digits, 2);
    let s = written(n, radix, upper);
    let m = n as int;
    if n < radix {
        assert(s.drop_last() =~= Seq::<char>::empty());
        assert(digit(s[0], radix) == Some(m));
    } else {
        lemma_shorter(n, radix);
        let rest = (m / radix) as nat;
        lemma_written(rest, radix, upper);
        assert(s.drop_last() =~= written(rest, radix, upper));
        assert(digit(s.last(), radix) == Some(m % radix));
        assert((m / radix) * radix + m % radix == m) by (nonlinear_arith)
            requires
                radix > 0,
        ;
        assert forall|i: int| 0 <= i < s.len() implies digit(#[trigger] s[i], radix) is Some by {
            if i < s.len() - 1 {
                assert(s[i] == written(rest, radix, upper)[i]);
            }
        }
    }
}

/// Every number that fits 64 bits is read as what was written: in decimal, and in hexadecimal behind
/// `0x` or `0X`, with small or capital letters; a plus sign may stand before the digits.
pub proof fn written_numbers_are_read(n: u64, upper: bool)
    ensures
        ({
            let (decimal, hex) = (written(n as nat, 10, upper), written(n as nat, 16, upper));
            &&& number(decimal) == Some(n)
            &&& number(seq!['+'] + decimal) == Some(n)
            &&& number(seq!['0', 'x'] + hex) == Some(n)
            &&& number(seq!['0', 'X'] + hex) == Some(n)
            &&& number(seq!['0', 'x', '+'] + hex) == Some(n)
        }),
{
    let (decimal, hex) = (written(n as nat, 10, upper), written(n as nat, 16, upper));
    lemma_written(n as nat, 10, upper);
    lemma_written(n as nat, 16, upper);
    assert(digit(decimal[0], 10) is Some && digit(decimal[decimal.len() - 1], 10) is Some);
    assert(digit(hex[0], 16) is Some && digit(hex[hex.len() - 1], 16) is Some);
    if decimal.len() >= 2 {
        assert(digit(decimal[1], 10) is Some);
    }
    assert((seq!['+'] + decimal).skip(1) =~= decimal);
    assert((seq!['0', 'x'] + hex).skip(2) =~= hex);
    assert((seq!['0', 'X'] + hex).skip(2) =~= hex);
    assert((seq!['0', 'x', '+'] + hex).skip(2).skip(1) =~= hex);
    assert((seq!['+'] + decimal).last() == decimal.last());
    assert((seq!['0', 'x'] + hex).last() == hex.last());
    assert((seq!['0', 'X'] + hex).last() == hex.last());
    assert((seq!['0', 'x', '+'] + hex).last() == hex.last());
}

/// A number that does not fit 64 bits is not read, and neither is one with something else than a
/// digit in it, or without any.
pub proof fn other_numbers_are_not_read(n: nat, upper: bool)
    requires
        n > u64::MAX,
    ensures
        number(written(n, 10, upper)) is None,
        number(seq!['0', 'x'] + written(n, 16, upper)) is None,
        number(Seq::<char>::empty()) is None,
        number(seq!['0', 'x']) is None,
        number(seq!['+']) is None,
{
    let (decimal, hex) = (written(n, 10, upper), written(n, 16, upper));
    lemma_written(n, 10, upper);
    lemma_written(n, 16, upper);
    assert(digit(decimal[0], 10) is Some && digit(decimal[decimal.len() - 1], 10) is Some);
    assert(digit(hex[0], 16) is Some && digit(hex[hex.len() - 1], 16) is Some);
    if decimal.len() >= 2 {
        assert(digit(decimal[1], 10) is Some);
    }
    assert((seq!['0', 'x'] + hex).skip(2) =~= hex);
    assert((seq!['0', 'x'] + hex).last() == hex.last());
    assert(seq!['0', 'x'].skip(2) =~= Seq::<char>::empty());
    assert(seq!['+'].skip(1) =~= Seq::<char>::empty());
}

/// A number before a `K` counts 1024 times and one before an `M` 1024 times 1024 times, if that fits
/// 64 bits; a number without either counts once.
pub proof fn sizes_are_scaled(n: u64, upper: bool)
    ensures
        ({
            let s = written(n as nat, 10, upper);
            &&& size_literal(s) == Some(n)
            &&& match size_literal(s.push('K')) {
                Some(size) => size == n * 1024,
                None => n * 1024 > u64::MAX,
            }
            &&& match size_literal(s.push('M')) {
                Some(size) => size == n * 1024 * 1024,
                None => n * 1024 * 1024 > u64::MAX,
            }
        }),
{
    let s = written(n as nat, 10, upper);
    written_numbers_are_read(n, upper);
    lemma_written(n as nat, 10, upper);
    assert(digit(s[0], 10) is Some && digit(s[s.len() - 1], 10) is Some);
    assert(s.push('K').drop_last() =~= s);
    assert(s.push('M').drop_last() =~= s);
}

/// White space at the end of a text is trimmed off.
proof fn lemma_trimmed_push(s: Seq<char>, c: char)
    requires
        is_space(c),
    ensures
        trimmed(s.push(c)) == trimmed(s),
    decreases s.len(),
{
    if s.len() == 0 {
        assert(s.push(c).drop_first() =~= s);
    } else if is_space(s[0]) {
        lemma_trimmed_push(s.drop_first(), c);
        assert(s.push(c).drop_first() =~= s.drop_first().push(c));
    } else {
        assert(s.push(c).drop_last() =~= s);
    }
}

/// White space before and behind a number or a size does not matter.
pub proof fn surrounding_space_does_not_matter(s: Seq<char>, c: char)
    requires
        is_space(c),
    ensures
        number(seq![c] + s) == number(s),
        number(s.push(c)) == number(s),
        size_literal(seq![c] + s) == size_literal(s),
        size_literal(s.push(c)) == size_literal(s),
{
    assert((seq![c] + s).drop_first() =~= s);
    lemma_trimmed_push(s, c);
}

/// The last operator stands before a text without operators.
proof fn lemma_operator_before(a: Seq<char>, op: char, b: Seq<char>)
    requires
        is_operator(op),
        forall|i: int| 0 <= i < b.len() ==> !is_operator(#[trigger] b[i]),
    ensures
        last_operator(a.push(op) + b) == a.len(),
    decreases b.len(),
{
    let s = a.push(op) + b;
    if b.len() == 0 {
        assert(s =~= a.push(op));
    } else {
        let shorter = b.drop_last();
        assert forall|i: int| 0 <= i < shorter.len() implies !is_operator(#[trigger] shorter[i]) by {
            assert(shorter[i] == b[i]);
        }
        lemma_operator_before(a, op, shorter);
        assert(s.drop_last() =~= a.push(op) + shorter);
        assert(s.last() == b[b.len() - 1]);
    }
}

/// A text without operators is a single term.
proof fn lemma_single_term(b: Seq<char>)
    requires
        forall|i: int| 0 <= i < b.len() ==> !is_operator(#[trigger] b[i]),
    ensures
        last_operator(b) == -1,
        sum(b) == term(b),
    decreases b.len(),
{
    if b.len() > 0 {
        let shorter = b.drop_last();
        assert forall|i: int| 0 <= i < shorter.len() implies !is_operator(#[trigger] shorter[i]) by {
            assert(shorter[i] == b[i]);
        }
        lemma_single_term(shorter);
        assert(!is_operator(b[b.len() - 1]));
    }
}

/// What stands behind a plus sign is added and what stands behind a minus sign is taken off, term by
/// term from left to right; and a sum can only be read if all of its terms can.
pub proof fn terms_are_added_up(a: Seq<char>, b: Seq<char>)
    requires
        forall|i: int| 0 <= i < b.len() ==> #[trigger] b[i] != '+' && b[i] != '-',
    ensures
        match (sum(a), sum(b)) {
            (Some(x), Some(y)) => {
                &&& i128::MIN <= x + y <= i128::MAX ==> sum(a.push('+') + b) == Some(x + y)
                &&& i128::MIN <= x - y <= i128::MAX ==> sum(a.push('-') + b) == Some(x - y)
            },
            _ => sum(a.push('+') + b) is None && sum(a.push('-') + b) is None,
        },
{
    assert forall|i: int| 0 <= i < b.len() implies !is_operator(#[trigger] b[i]) by {}
    lemma_single_term(b);
    lemma_operator_before(a, '+', b);
    lemma_operator_before(a, '-', b);
    let n = a.len() as int;
    assert((a.push('+') + b).take(n) =~= a);
    assert((a.push('-') + b).take(n) =~= a);
    assert((a.push('+') + b).skip(n + 1) =~= b);
    assert((a.push('-') + b).skip(n + 1) =~= b);
}

/// Without brackets in it, a text stays as it is when the brackets are left out.
proof fn lemma_no_brackets(s: Seq<char>)
    requires
        forall|i: int| 0 <= i < s.len() ==> !is_bracket(#[trigger] s[i]),
    ensures
        without_brackets(s) == s,
    decreases s.len(),
{
    reveal(Seq::filter);
    if s.len() > 0 {
        let shorter = s.drop_last();
        assert forall|i: int| 0 <= i < shorter.len() implies !is_bracket(#[trigger] shorter[i]) by {
            assert(shorter[i] == s[i]);
        }
        lemma_no_brackets(shorter);
        assert(!is_bracket(s[s.len() - 1]));
        assert(shorter.push(s.last()) =~= s);
    }
}

/// A size without operators and brackets in it is an expression with the same value.
pub proof fn sizes_are_expressions(t: Seq<char>, n: u64)
    requires
        forall|i: int| 0 <= i < t.len() ==> #[trigger] t[i] != '+' && t[i] != '-',
        forall|i: int| 0 <= i < t.len() ==> #[trigger] t[i] != '(' && t[i] != ')',
        size_literal(t) == Some(n),
    ensures
        sum(t) == Some(n as int),
        expression(t) == Some(n),
{
    assert forall|i: int| 0 <= i < t.len() implies !is_operator(#[trigger] t[i]) by {}
    assert forall|i: int| 0 <= i < t.len() implies !is_bracket(#[trigger] t[i]) by {}
    lemma_single_term(t);
    lemma_no_brackets(t);
    if trimmed(t).len() == 0 {
        assert(number(trimmed(t)) is None);
    }
}

/// The value of an expression is its sum, if that is neither negative nor too great for 64 bits, and
/// there is no value if the sum is negative or cannot be read.
pub proof fn expressions_are_sums(s: Seq<char>)
    ensures
        sum(s) matches Some(total) ==> {
            &&& 0 <= total <= u64::MAX ==> expression(s) == Some(total as u64)
            &&& total < 0 ==> expression(s) is None
        },
        sum(s) is None ==> expression(s) is None,
{
}

/// The line goes up to the first line break, or up to the end of the text.
proof fn lemma_line_end(s: Seq<char>, from: int, to: int)
    requires
        0 <= from <= to <= s.len(),
        forall|i: int| from <= i < to ==> #[trigger] s[i] != '\n',
        to == s.len() || s[to] == '\n',
    ensures
        line_end(s, from) == to,
    decreases to - from,
{
    if from < to {
        assert(s[from] != '\n');
        lemma_line_end(s, from + 1, to);
    }
}

/// A length is not announced where there is no comma.
proof fn lemma_no_comma(s: Seq<char>, p: int)
    requires
        0 <= p < s.len(),
        s[p] != ',',
    ensures
        length_start(s, p) is None,
{
    reveal_strlit(",");
    if behind(s, p, ","@) is Some {
        assert(s.subrange(p, p + 1)[0] == s[p]);
        assert(","@[0] == ',');
    }
}

/// The origin ends at the last place at which a length is announced.
proof fn lemma_origin_end(s: Seq<char>, from: int, at: int, end: int)
    requires
        0 <= from <= at < end <= s.len(),
        length_start(s, at) is Some,
        forall|i: int| at < i < end ==> #[trigger] s[i] != ',',
    ensures
        origin_end(s, from, end) == Some(at),
    decreases end - at,
{
    if end - 1 > at {
        assert(s[end - 1] != ',');
        lemma_no_comma(s, end - 1);
        lemma_origin_end(s, from, at, end - 1);
    }
}

/// Without the first letter of its name, there is no description.
proof fn lemma_no_description(s: Seq<char>, i: int, to: int)
    requires
        0 <= i <= to < s.len(),
        forall|k: int| i <= k < to ==> #[trigger] s[k] != 'C',
        fields_at(s, to) is Some,
    ensures
        fields_from(s, i) == fields_at(s, to),
    decreases to - i,
{
    if i < to {
        reveal_strlit("CV_FLASH");
        assert(s[i] != 'C');
        if behind(s, i, "CV_FLASH"@) is Some {
            assert(s.subrange(i, i + 8)[0] == s[i]);
            assert("CV_FLASH"@[0] == 'C');
        }
        lemma_no_description(s, i + 1, to);
    }
}

/// A word that stands at a place is found there.
proof fn lemma_behind(s: Seq<char>, i: int, word: Seq<char>)
    requires
        0 <= i,
        i + word.len() <= s.len(),
        word.len() > 0,
        !is_space(word[0]),
        s.subrange(i, i + word.len()) == word,
    ensures
        behind(s, i, word) == Some(i + word.len()),
        next_behind(s, Some(i), word) == Some(i + word.len()),
{
    assert(s.subrange(i, i + word.len())[0] == s[i]);
}

/// What the words of a description are made of.
proof fn lemma_words()
    ensures
        "CV_FLASH:ORIGIN="@.len() == 16,
        "CV_FLASH:ORIGIN="@.subrange(0, 8) == "CV_FLASH"@,
        "CV_FLASH:ORIGIN="@.subrange(8, 9) == ":"@,
        "CV_FLASH:ORIGIN="@.subrange(9, 15) == "ORIGIN"@,
        "CV_FLASH:ORIGIN="@.subrange(15, 16) == "="@,
        ",LENGTH="@.len() == 8,
        ",LENGTH="@.subrange(0, 1) == ","@,
        ",LENGTH="@.subrange(1, 7) == "LENGTH"@,
        ",LENGTH="@.subrange(7, 8) == "="@,
        forall|i: int| 0 <= i < 8 ==> #[trigger] ",LENGTH="@[i] != '\n',
        forall|i: int| 1 <= i < 8 ==> #[trigger] ",LENGTH="@[i] != ',',
        "CV_FLASH"@.len() == 8 && !is_space("CV_FLASH"@[0]),
        ":"@.len() == 1 && !is_space(":"@[0]),
        "ORIGIN"@.len() == 6 && !is_space("ORIGIN"@[0]),
        "="@.len() == 1 && !is_space("="@[0]),
        ","@.len() == 1 && !is_space(","@[0]),
        "LENGTH"@.len() == 6 && !is_space("LENGTH"@[0]),
{
    reveal_strlit("CV_FLASH:ORIGIN=");
    reveal_strlit(",LENGTH=");
    reveal_strlit("CV_FLASH");
    reveal_strlit(":");
    reveal_strlit("ORIGIN");
    reveal_strlit("=");
    reveal_strlit(",");
    reveal_strlit("LENGTH");
    assert("CV_FLASH:ORIGIN="@.subrange(0, 8) =~= "CV_FLASH"@);
    assert("CV_FLASH:ORIGIN="@.subrange(8, 9) =~= ":"@);
    assert("CV_FLASH:ORIGIN="@.subrange(9, 15) =~= "ORIGIN"@);
    assert("CV_FLASH:ORIGIN="@.subrange(15, 16) =~= "="@);
    assert(",LENGTH="@.subrange(0, 1) =~= ","@);
    assert(",LENGTH="@.subrange(1, 7) =~= "LENGTH"@);
    assert(",LENGTH="@.subrange(7, 8) =~= "="@);
}

/// A description that stands at a place is found there.
proof fn lemma_description(s: Seq<char>, k: int, at: int, end: int)
    requires
        0 <= k,
        k + 16 < at,
        at + 8 < end <= s.len(),
        s.subrange(k, k + 16) == "CV_FLASH:ORIGIN="@,
        s.subrange(at, at + 8) == ",LENGTH="@,
        !is_space(s[k + 16]),
        !is_space(s[at + 8]),
        forall|i: int| k + 16 <= i < end ==> #[trigger] s[i] != '\n',
        forall|i: int| at < i < end ==> #[trigger] s[i] != ',',
        end == s.len() || s[end] == '\n',
    ensures
        fields_at(s, k) == Some((s.subrange(k + 16, at), s.subrange(at + 8, end))),
{
    lemma_words();
    let (head, middle) = (s.subrange(k, k + 16), s.subrange(at, at + 8));
    assert(s.subrange(k, k + 8) =~= head.subrange(0, 8));
    assert(s.subrange(k + 8, k + 9) =~= head.subrange(8, 9));
    assert(s.subrange(k + 9, k + 15) =~= head.subrange(9, 15));
    assert(s.subrange(k + 15, k + 16) =~= head.subrange(15, 16));
    assert(s.subrange(at, at + 1) =~= middle.subrange(0, 1));
    assert(s.subrange(at + 1, at + 7) =~= middle.subrange(1, 7));
    assert(s.subrange(at + 7, at + 8) =~= middle.subrange(7, 8));
    lemma_behind(s, k, "CV_FLASH"@);
    lemma_behind(s, k + 8, ":"@);
    lemma_behind(s, k + 9, "ORIGIN"@);
    lemma_behind(s, k + 15, "="@);
    lemma_behind(s, at, ","@);
    lemma_behind(s, at + 1, "LENGTH"@);
    lemma_behind(s, at + 7, "="@);
    assert(origin_start(s, k) == Some(k + 16));
    assert(length_start(s, at) == Some(at + 8));
    lemma_line_end(s, k + 16, end);
    lemma_line_end(s, at + 8, end);
    lemma_origin_end(s, k + 16, at, end);
}

/// A region that is described in one line is read from the description of a memory layout: the
/// origin is the value of what stands between `ORIGIN=` and the comma, and the length the value of
/// what stands between `LENGTH=` and the end of the line. Nothing that follows on other lines
/// matters, and nothing before in which the name of the region does not begin.
pub proof fn described_region_is_read(
    text: Seq<char>,
    before: Seq<char>,
    origin: Seq<char>,
    length: Seq<char>,
    rest: Seq<char>,
)
    requires
        text == before + "CV_FLASH:ORIGIN="@ + origin + ",LENGTH="@ + length + rest,
        forall|i: int| 0 <= i < before.len() ==> #[trigger] before[i] != 'C',
        forall|i: int| 0 <= i < origin.len() ==> #[trigger] origin[i] != '\n',
        forall|i: int| 0 <= i < length.len() ==> #[trigger] length[i] != '\n' && length[i] != ',',
        origin.len() > 0,
        !is_space(origin[0]),
        length.len() > 0,
        !is_space(length[0]),
        rest.len() == 0 || rest[0] == '\n',
    ensures
        cv_flash(text) == (match (expression(origin), expression(length)) {
            (Some(origin), Some(length)) => Some((origin, length)),
            _ => None,
        }),
{
    lemma_words();
    let k = before.len() as int;
    let at = k + 16 + origin.len();
    let end = at + 8 + length.len();
    let (head, middle) = ("CV_FLASH:ORIGIN="@, ",LENGTH="@);
    assert(text.len() == end + rest.len());
    assert(text.subrange(k, k + 16) =~= head);
    assert(text.subrange(k + 16, at) =~= origin);
    assert(text.subrange(at, at + 8) =~= middle);
    assert(text.subrange(at + 8, end) =~= length);
    assert(text[k + 16] == origin[0]);
    assert(text[at + 8] == length[0]);
    assert(rest.len() > 0 ==> text[end] == rest[0]);
    assert forall|i: int| k + 16 <= i < end implies #[trigger] text[i] != '\n' by {
        if i < at {
            assert(text[i] == origin[i - (k + 16)]);
        } else if i < at + 8 {
            assert(text[i] == middle[i - at]);
        } else {
            assert(text[i] == length[i - (at + 8)]);
        }
    }
    assert forall|i: int| at < i < end implies #[trigger] text[i] != ',' by {
        if i < at + 8 {
            assert(text[i] == middle[i - at]);
        } else {
            assert(text[i] == length[i - (at + 8)]);
        }
    }
    lemma_description(text, k, at, end);
    assert forall|i: int| 0 <= i < k implies #[trigger] text[i] != 'C' by {
        assert(text[i] == before[i]);
    }
    lemma_no_description(text, 0, k);
}

/// There is no description where the first letter of its name does not occur.
proof fn lemma_no_fields(text: Seq<char>, i: int)
    requires
        0 <= i,
        forall|k: int| 0 <= k < text.len() ==> #[trigger] text[k] != 'C',
    ensures
        fields_from(text, i) is None,
    decreases text.len() - i,
{
    if i < text.len() {
        reveal_strlit("CV_FLASH");
        assert(text[i] != 'C');
        if behind(text, i, "CV_FLASH"@) is Some {
            assert(text.subrange(i, i + 8)[0] == text[i]);
            assert("CV_FLASH"@[0] == 'C');
        }
        lemma_no_fields(text, i + 1);
    }
}

/// There is no region in a text in which the first letter of its name does not occur.
pub proof fn no_region_without_its_name(text: Seq<char>)
    requires
        forall|k: int| 0 <= k < text.len() ==> #[trigger] text[k] != 'C',
    ensures
        cv_flash(text) is None,
{
    lemma_no_fields(text, 0);
}

/// A bracket anywhere in a term counts for nothing.
pub proof fn brackets_count_for_nothing(a: Seq<char>, bracket: char, b: Seq<char>)
    requires
        bracket == '(' || bracket == ')',
    ensures
        term(a + seq![bracket] + b) == term(a + b),
{
    let pred = |c: char| !is_bracket(c);
    Seq::filter_distributes_over_add(a + seq![bracket], b, pred);
    Seq::filter_distributes_over_add(a, seq![bracket], pred);
    Seq::filter_distributes_over_add(a, b, pred);
    assert(seq![bracket].filter(pred) =~= Seq::<char>::empty()) by {
        reveal_with_fuel(Seq::filter, 2);
        assert(seq![bracket].drop_last() =~= Seq::<char>::empty());
    }
    assert((a + seq![bracket] + b).filter(pred) =~= (a + b).filter(pred));
}

} // verus!
