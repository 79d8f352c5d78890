//! Numbers and lines as text.

use vstd::prelude::*;

verus! {

/// The decimal digits of a number.
pub open spec fn digits(n: nat) -> Seq<u8>
    decreases n,
{
    if n < 10 {
        seq![(48 + n) as u8]
    } else {
        digits(n / 10).push((48 + n % 10) as u8)
    }
}

/// The decimal text of a number.
pub open spec fn number_text(n: int) -> Seq<u8> {
    if n < 0 {
        seq![45u8] + digits((-n) as nat)
    } else {
        digits(n as nat)
    }
}

/// All bytes are decimal digits.
pub open spec fn all_digits(s: Seq<u8>) -> bool {
    forall|i: int| 0 <= i < s.len() ==> 48 <= #[trigger] s[i] <= 57
}

/// The number that decimal digits stand for.
pub open spec fn digits_value(s: Seq<u8>) -> int
    decreases s.len(),
{
    if s.len() == 0 {
        0
    } else {
        digits_value(s.drop_last()) * 10 + (s.last() - 48)
    }
}

/// A text without one sign in front.
pub open spec fn unsigned_part(s: Seq<u8>, signed: bool) -> Seq<u8> {
    if s.len() > 0 && (s[0] == 43 || signed && s[0] == 45) {
        s.skip(1)
    } else {
        s
    }
}

/// The number between `min` and `max` that a text stands for: decimal digits, at least one, after a
/// plus sign or, for negative numbers, a minus sign.
pub open spec fn parsed(s: Seq<u8>, min: int, max: int) -> Option<int> {
    let body = unsigned_part(s, min < 0);
    let value = if s.len() > 0 && s[0] == 45 {
        -digits_value(body)
    } else {
        digits_value(body)
    };
    if body.len() > 0 && all_digits(body) && min <= value <= max {
        Some(value)
    } else {
        None
    }
}

/// Length of the white space character at the start of a text, zero if there is none.
pub open spec fn space_prefix(s: Seq<u8>) -> int {
    if s.len() >= 1 && (9 <= s[0] <= 13 || s[0] == 32) {
        1
    } else if s.len() >= 2 && is_space2(s[0], s[1]) {
        2
    } else if s.len() >= 3 && is_space3(s[0], s[1], s[2]) {
        3
    } else {
        0
    }
}

/// Length of the white space character at the end of a text, zero if there is none.
pub open spec fn space_suffix(s: Seq<u8>) -> int {
    let n = s.len() as int;
    if n >= 1 && (9 <= s[n - 1] <= 13 || s[n - 1] == 32) {
        1
    } else if n >= 2 && is_space2(s[n - 2], s[n - 1]) {
        2
    } else if n >= 3 && is_space3(s[n - 3], s[n - 2], s[n - 1]) {
        3
    } else {
        0
    }
}

/// Two bytes encode a white space character: a line separator or a space that does not break.
pub open spec fn is_space2(a: u8, b: u8) -> bool {
    a == 0xc2 && (b == 0x85 || b == 0xa0)
}

/// Three bytes encode a white space character.
pub open spec fn is_space3(a: u8, b: u8, c: u8) -> bool {
    ||| a == 0xe1 && b == 0x9a && c == 0x80
    ||| a == 0xe2 && b == 0x80 && (0x80 <= c <= 0x8a || c == 0xa8 || c == 0xa9 || c == 0xaf)
    ||| a == 0xe2 && b == 0x81 && c == 0x9f
    ||| a == 0xe3 && b == 0x80 && c == 0x80
}

/// A text without white space at its start.
pub open spec fn trimmed_start(s: Seq<u8>) -> Seq<u8>
    decreases s.len(),
{
    if space_prefix(s) == 0 {
        s
    } else {
        trimmed_start(s.skip(space_prefix(s)))
    }
}

/// A text without white space at its end.
pub open spec fn trimmed_end(s: Seq<u8>) -> Seq<u8>
    decreases s.len(),
{
    if space_suffix(s) == 0 {
        s
    } else {
        trimmed_end(s.take(s.len() - space_suffix(s)))
    }
}

/// A text without white space at its ends.
pub open spec fn trimmed(s: Seq<u8>) -> Seq<u8> {
    trimmed_end(trimmed_start(s))
}

/// The decimal text of a number.
pub fn decimal(n: u64) -> (r: Vec<u8>)
    ensures
        r@ == digits(n as nat),
    decreases n,
{
    if n < 10 {
        let mut r: Vec<u8> = Vec::new();
        r.push(48 + n as u8);
        assert(r@ =~= digits(n as nat));
        r
    } else {
        let mut r = decimal(n / 10);
        r.push(48 + (n % 10) as u8);
        r
    }
}

/// The decimal text of a number.
pub fn signed_decimal(n: i64) -> (r: Vec<u8>)
    ensures
        r@ == number_text(n as int),
{
    if n < 0 {
        let mut r: Vec<u8> = Vec::new();
        r.push(45);
        let magnitude: u64 = if n == i64::MIN {
            0x8000_0000_0000_0000
        } else {
            (-n) as u64
        };
        let mut rest = decimal(magnitude);
        r.append(&mut rest);
        assert(r@ =~= number_text(n as int));
        r
    } else {
        decimal(n as u64)
    }
}

/// Reads decimal digits of `text` from position `from` on, up to the value `max`.
fn parse_digits(text: &[u8], from: usize, max: u64) -> (r: Option<u64>)
    requires
        from <= text@.len(),
    ensures
        ({
            let body = text@.skip(from as int);
            match r {
                Some(n) => body.len() > 0 && all_digits(body) && n == digits_value(body) && n
                    <= max,
                None => !(body.len() > 0 && all_digits(body) && digits_value(body) <= max),
            }
        }),
{
    let ghost body = text@.skip(from as int);
    if from >= text.len() {
        return None;
    }
    let mut n: u64 = 0;
    let mut i: usize = from;
    assert(body.take(0) =~= Seq::<u8>::empty());
    while i < text.len()
        invariant
            from <= i <= text@.len(),
            body == text@.skip(from as int),
            body.len() == text@.len() - from,
            all_digits(body.take(i - from)),
            n == digits_value(body.take(i - from)),
            n <= max,
        decreases text@.len() - i,
    {
        let c: u8 = text[i];
        let ghost k = i - from;
        assert(c == body[k]);
        if c < 48 || c > 57 {
            assert(!all_digits(body));
            return None;
        }
        let d: u64 = (c - 48) as u64;
        proof {
            assert(body.take(k + 1).drop_last() =~= body.take(k));
            assert(body.take(k + 1).last() == c);
            assert(digits_value(body.take(k + 1)) == n * 10 + d);
            if all_digits(body) {
                lemma_value_grows(body, k + 1);
            }
        }
        if n > max / 10 || d > max - n * 10 {
            proof {
                assert(n * 10 + d > max);
            }
            return None;
        }
        n = n * 10 + d;
        assert forall|j: int| 0 <= j < k + 1 implies 48 <= #[trigger] body.take(k + 1)[j] <= 57 by {
            if j < k {
                assert(body.take(k)[j] == body[j]);
            }
        }
        i += 1;
    }
    assert(body.take(body.len() as int) =~= body);
    Some(n)
}

/// More digits do not make a number smaller.
proof fn lemma_value_grows(s: Seq<u8>, k: int)
    requires
        all_digits(s),
        0 <= k <= s.len(),
    ensures
        0 <= digits_value(s.take(k)) <= digits_value(s),
    decreases s.len() - k, k,
{
    if k < s.len() {
        lemma_value_grows(s, k + 1);
        assert(s.take(k + 1).drop_last() =~= s.take(k));
        assert(s.take(k + 1).last() == s[k]);
        lemma_value_nonnegative(s.take(k));
    } else {
        assert(s.take(k) =~= s);
        lemma_value_nonnegative(s);
    }
}

proof fn lemma_value_nonnegative(s: Seq<u8>)
    requires
        all_digits(s),
    ensures
        0 <= digits_value(s),
    decreases s.len(),
{
    if s.len() > 0 {
        assert(48 <= s[s.len() - 1]);
        assert(all_digits(s.drop_last())) by {
            assert forall|i: int| 0 <= i < s.drop_last().len() implies 48 <= #[trigger] s.drop_last()[i]
                <= 57 by {
                assert(s.drop_last()[i] == s[i]);
            }
        }
        lemma_value_nonnegative(s.drop_last());
    }
}

/// Reads a number that is not negative.
pub fn parse_unsigned(text: &[u8], max: u64) -> (r: Option<u64>)
    ensures
        match r {
            Some(n) => parsed(text@, 0, max as int) == Some(n as int),
            None => parsed(text@, 0, max as int) is None,
        },
{
    let from: usize = if text.len() > 0 && text[0] == 43 {
        1
    } else {
        0
    };
    let r = parse_digits(text, from, max);
    proof {
        let body = unsigned_part(text@, false);
        if from == 0 {
            assert(text@.skip(0) =~= text@);
            if text@.len() > 0 && text@[0] == 45 {
                assert(!all_digits(text@));
            }
        }
        assert(body == text@.skip(from as int));
        if all_digits(body) {
            lemma_value_nonnegative(body);
        }
    }
    r
}

/// Reads a number that can be negative, where `max` is the largest number and `max + 1` the largest
/// magnitude of a negative one.
pub fn parse_signed(text: &[u8], max: i64) -> (r: Option<i64>)
    requires
        max >= 0,
    ensures
        match r {
            Some(n) => parsed(text@, -max - 1, max as int) == Some(n as int),
            None => parsed(text@, -max - 1, max as int) is None,
        },
{
    let ghost body = unsigned_part(text@, true);
    if text.len() > 0 && text[0] == 45 {
        let r = parse_digits(text, 1, max as u64 + 1);
        proof {
            if all_digits(body) {
                lemma_value_nonnegative(body);
            }
        }
        match r {
            Some(n) => if n == max as u64 + 1 {
                Some(-max - 1)
            } else {
                Some(-(n as i64))
            },
            None => None,
        }
    } else {
        let from: usize = if text.len() > 0 && text[0] == 43 {
            1
        } else {
            0
        };
        let r = parse_digits(text, from, max as u64);
        proof {
            if from == 0 {
                assert(text@.skip(0) =~= text@);
            }
            assert(body == text@.skip(from as int));
            if all_digits(body) {
                lemma_value_nonnegative(body);
            }
        }
        match r {
            Some(n) => Some(n as i64),
            None => None,
        }
    }
}

/// A text without white space at its ends.
pub fn trim(text: &[u8]) -> (r: Vec<u8>)
    ensures
        r@ == trimmed(text@),
{
    let mut from: usize = 0;
    let len: usize = text.len();
    let mut more: bool = true;
    assert(text@.skip(0) =~= text@);
    while more
        invariant
            from <= len == text@.len(),
            trimmed_start(text@.skip(from as int)) == trimmed_start(text@),
            !more ==> space_prefix(text@.skip(from as int)) == 0,
        decreases len - from + (if more { 1int } else { 0int }),
    {
        let ghost rest = text@.skip(from as int);
        let step: usize = if len - from >= 1 && (9 <= text[from] && text[from] <= 13 || text[from]
            == 32) {
            1
        } else if len - from >= 2 && spaces2(text[from], text[from + 1]) {
            2
        } else if len - from >= 3 && spaces3(text[from], text[from + 1], text[from + 2]) {
            3
        } else {
            0
        };
        assert(step == space_prefix(rest));
        if step == 0 {
            more = false;
        } else {
            assert(rest.skip(step as int) =~= text@.skip(from + step));
            from += step;
        }
    }
    let ghost start = text@.skip(from as int);
    assert(start == trimmed_start(text@));
    let mut to: usize = len;
    more = true;
    assert(start.take(start.len() as int) =~= start);
    while more
        invariant
            from <= to <= len == text@.len(),
            start == text@.skip(from as int),
            start.len() == len - from,
            trimmed_end(start.take(to - from)) == trimmed_end(start),
            !more ==> space_suffix(start.take(to - from)) == 0,
        decreases to - from + (if more { 1int } else { 0int }),
    {
        let ghost rest = start.take(to - from);
        let left: usize = to - from;
        let step: usize = if left >= 1 && (9 <= text[to - 1] && text[to - 1] <= 13 || text[to - 1]
            == 32) {
            1
        } else if left >= 2 && spaces2(text[to - 2], text[to - 1]) {
            2
        } else if left >= 3 && spaces3(text[to - 3], text[to - 2], text[to - 1]) {
            3
        } else {
            0
        };
        assert(step == space_suffix(rest));
        if step == 0 {
            more = false;
        } else {
            assert(rest.take(rest.len() - step) =~= start.take(to - step - from));
            to -= step;
        }
    }
    let mut r: Vec<u8> = Vec::new();
    let mut i: usize = from;
    while i < to
        invariant
            from <= i <= to <= text@.len(),
            r@ =~= text@.subrange(from as int, i as int),
        decreases to - i,
    {
        r.push(text[i]);
        i += 1;
    }
    assert(r@ =~= start.take(to - from));
    r
}

fn spaces2(a: u8, b: u8) -> (r: bool)
    ensures
        r == is_space2(a, b),
{
    a == 0xc2 && (b == 0x85 || b == 0xa0)
}

fn spaces3(a: u8, b: u8, c: u8) -> (r: bool)
    ensures
        r == is_space3(a, b, c),
{
    a == 0xe1 && b == 0x9a && c == 0x80 || a == 0xe2 && b == 0x80 && (0x80 <= c && c <= 0x8a || c
        == 0xa8 || c == 0xa9 || c == 0xaf) || a == 0xe2 && b == 0x81 && c == 0x9f || a == 0xe3 && b
        == 0x80 && c == 0x80
}

/// Whether bytes are valid UTF-8: [`core::str::from_utf8`] accepts exactly those.
#[verifier::external_body]
pub(crate) fn is_utf8(bytes: &[u8]) -> (r: bool)
    ensures
        r == vstd::utf8::valid_utf8(bytes@),
{
    core::str::from_utf8(bytes).is_ok()
}

/// The text of a number has no white space at its ends.
pub proof fn lemma_number_text(n: int)
    ensures
        number_text(n).len() > 0,
        space_prefix(number_text(n)) == 0,
        space_suffix(number_text(n)) == 0,
{
    let magnitude = if n < 0 { (-n) as nat } else { n as nat };
    lemma_digits_read(magnitude);
    let text = number_text(n);
    let last = text.len() - 1;
    assert(48 <= text[last] <= 57) by {
        assert(text[last] == digits(magnitude).last());
    }
    assert(text[0] == 45 || 48 <= text[0] <= 57);
}

/// The digits of a number are read as the number.
pub proof fn lemma_digits_read(n: nat)
    ensures
        digits(n).len() > 0,
        all_digits(digits(n)),
        digits_value(digits(n)) == n,
    decreases n,
{
    if n < 10 {
        let s = digits(n);
        assert(s.drop_last() =~= Seq::<u8>::empty());
        assert(s.last() == 48 + n);
        assert(digits_value(Seq::<u8>::empty()) == 0);
        assert(digits_value(s) == digits_value(s.drop_last()) * 10 + (s.last() - 48));
    } else {
        lemma_digits_read(n / 10);
        let s = digits(n);
        assert(s.drop_last() =~= digits(n / 10));
        assert(s.last() == 48 + n % 10);
        assert(digits_value(s) == digits_value(s.drop_last()) * 10 + (s.last() - 48));
        assert forall|i: int| 0 <= i < s.len() implies 48 <= #[trigger] s[i] <= 57 by {
            if i < s.len() - 1 {
                assert(s[i] == digits(n / 10)[i]);
            }
        }
    }
}

/// A number that is written and read again is the same number.
pub proof fn lemma_number_round_trip(n: int, min: int, max: int)
    requires
        min <= n <= max,
        min <= 0,
    ensures
        parsed(number_text(n), min, max) == Some(n),
{
    let magnitude = if n < 0 { (-n) as nat } else { n as nat };
    lemma_digits_read(magnitude);
    let text = number_text(n);
    if n < 0 {
        assert(text.skip(1) =~= digits(magnitude));
    } else {
        assert(48 <= text[0] <= 57);
    }
}

/// White space around a text, as a line end behind a number, does not change what is left when it
/// is trimmed.
pub proof fn lemma_trim_line(s: Seq<u8>)
    requires
        space_prefix(s) == 0,
        space_suffix(s) == 0,
        s.len() > 0,
    ensures
        trimmed(s.push(10)) == s,
        trimmed(s) == s,
{
    let line = s.push(10);
    assert(space_prefix(line) == 0) by {
        if s.len() == 1 {
            assert(!is_space2(line[0], line[1]));
        }
        if s.len() == 2 {
            assert(!is_space3(line[0], line[1], line[2]));
        }
    }
    assert(trimmed_start(line) == line);
    assert(space_suffix(line) == 1);
    assert(line.take(line.len() - 1) =~= s);
    assert(trimmed_end(s) == s);
    assert(trimmed_end(line) == trimmed_end(line.take(line.len() - 1)));
}

} // verus!
