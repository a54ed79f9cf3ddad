//! Text helpers: equality, joining, trimming, numbers in decimal and hexadecimal.

use vstd::prelude::*;
use vstd::string::*;

verus! {

/// Unicode white space.
pub open spec fn is_white(c: char) -> bool {
    ||| '\u{9}' <= c <= '\u{d}'
    ||| c == ' '
    ||| c == '\u{85}'
    ||| c == '\u{a0}'
    ||| c == '\u{1680}'
    ||| '\u{2000}' <= c <= '\u{200a}'
    ||| c == '\u{2028}'
    ||| c == '\u{2029}'
    ||| c == '\u{202f}'
    ||| c == '\u{205f}'
    ||| c == '\u{3000}'
}

/// A text without its leading white space.
pub open spec fn trim_start(s: Seq<char>) -> Seq<char>
    decreases s.len(),
{
    if s.len() > 0 && is_white(s[0]) {
        trim_start(s.subrange(1, s.len() as int))
    } else {
        s
    }
}

/// A text without its trailing white space.
pub open spec fn trim_end(s: Seq<char>) -> Seq<char>
    decreases s.len(),
{
    if s.len() > 0 && is_white(s.last()) {
        trim_end(s.drop_last())
    } else {
        s
    }
}

/// A text without white space at its ends.
pub open spec fn trimmed(s: Seq<char>) -> Seq<char> {
    trim_end(trim_start(s))
}

/// The character of a decimal or hexadecimal digit.
pub open spec fn digit_char(d: nat) -> char {
    if d < 10 {
        (48 + d) as char
    } else {
        (87 + d) as char
    }
}

/// A number in decimal, without padding.
pub open spec fn decimal(n: nat) -> Seq<char>
    decreases n,
{
    if n < 10 {
        seq![digit_char(n)]
    } else {
        decimal(n / 10).push(digit_char(n % 10))
    }
}

/// The last `width` hexadecimal digits of a number.
pub open spec fn hex(n: nat, width: nat) -> Seq<char>
    decreases width,
{
    if width == 0 {
        Seq::empty()
    } else {
        hex(n / 16, (width - 1) as nat).push(digit_char(n % 16))
    }
}

/// A hexadecimal text has one digit for each place.
pub proof fn lemma_hex_len(n: nat, width: nat)
    ensures
        hex(n, width).len() == width,
    decreases width,
{
    if width > 0 {
        lemma_hex_len(n / 16, (width - 1) as nat);
    }
}

/// Each place of a hexadecimal text holds a digit in lower case.
pub proof fn lemma_hex_digits(n: nat, width: nat)
    ensures
        forall|i: int|
            0 <= i < hex(n, width).len() ==> {
                let c = #[trigger] hex(n, width)[i];
                '0' <= c <= '9' || 'a' <= c <= 'f'
            },
    decreases width,
{
    if width > 0 {
        let front = hex(n / 16, (width - 1) as nat);
        lemma_hex_digits(n / 16, (width - 1) as nat);
        assert forall|i: int| 0 <= i < hex(n, width).len() implies {
            let c = #[trigger] hex(n, width)[i];
            '0' <= c <= '9' || 'a' <= c <= 'f'
        } by {
            if i < front.len() {
                assert(hex(n, width)[i] == front[i]);
            }
        }
    }
}

/// A text filled up with zeros in front to at least `width` characters.
pub open spec fn zero_filled(s: Seq<char>, width: nat) -> Seq<char>
    decreases width - s.len(),
{
    if s.len() < width {
        zero_filled(seq!['0'] + s, width)
    } else {
        s
    }
}

/// A number in decimal, padded with zeros to `width`; a minus sign counts.
pub open spec fn padded(n: int, width: nat) -> Seq<char> {
    if n >= 0 {
        zero_filled(decimal(n as nat), width)
    } else {
        seq!['-'] + zero_filled(decimal((-n) as nat), (width - 1) as nat)
    }
}

/// The value of a decimal digit.
pub open spec fn digit_value(c: char) -> Option<nat> {
    if '0' <= c <= '9' {
        Some((c as nat - 48) as nat)
    } else {
        None
    }
}

/// The number that a sequence of decimal digits denotes; `None` where another
/// character is in it.
pub open spec fn digits_value(s: Seq<char>) -> Option<nat>
    decreases s.len(),
{
    if s.len() == 0 {
        Some(0nat)
    } else {
        match (digits_value(s.drop_last()), digit_value(s.last())) {
            (Some(high), Some(low)) => Some(high * 10 + low),
            _ => None,
        }
    }
}

/// The digits of an unsigned number text: one leading plus sign is allowed.
pub open spec fn unsigned_digits(s: Seq<char>) -> Seq<char> {
    if s.len() > 0 && s[0] == '+' {
        s.subrange(1, s.len() as int)
    } else {
        s
    }
}

/// The number that a text denotes, where it is written in decimal and at most
/// `max`.
pub open spec fn unsigned_value(s: Seq<char>, max: nat) -> Option<nat> {
    let digits = unsigned_digits(s);
    if digits.len() == 0 {
        None
    } else {
        match digits_value(digits) {
            Some(n) => if n <= max {
                Some(n)
            } else {
                None
            },
            None => None,
        }
    }
}

/// `String::from_iter` over characters: the string holds them in order.
#[verifier::external_body]
pub(crate) fn string_of(chars: &Vec<char>) -> (s: String)
    ensures
        s@ == chars@,
{
    String::from_iter(chars.iter())
}

/// The characters of a string.
pub fn chars_of(s: &str) -> (chars: Vec<char>)
    ensures
        chars@ == s@,
{
    let mut chars: Vec<char> = Vec::new();
    for c in iter: s.chars()
        invariant
            chars@ == s@.take(iter.index()),
            iter.seq() == s@,
    {
        chars.push(c);
    }
    assert(s@.take(s@.len() as int) =~= s@);
    chars
}

/// Whether two strings hold the same characters.
pub fn text_eq(a: &str, b: &str) -> (same: bool)
    ensures
        same == (a@ == b@),
{
    let x = a.as_bytes();
    let y = b.as_bytes();
    proof {
        vstd::utf8::encode_utf8_decode_utf8(a@);
        vstd::utf8::encode_utf8_decode_utf8(b@);
    }
    if x.len() != y.len() {
        return false;
    }
    let mut i: usize = 0;
    while i < x.len()
        invariant
            x@.len() == y@.len(),
            i <= x@.len(),
            x@ == a.spec_bytes(),
            y@ == b.spec_bytes(),
            forall|k: int| 0 <= k < i ==> x@[k] == y@[k],
        decreases x@.len() - i,
    {
        if x[i] != y[i] {
            assert(x@ != y@);
            return false;
        }
        i = i + 1;
    }
    assert(x@ =~= y@);
    true
}

/// Whether a string begins with `prefix`.
pub fn starts_with(s: &str, prefix: &str) -> (b: bool)
    ensures
        b == prefix@.is_prefix_of(s@),
{
    let x = chars_of(s);
    let p = chars_of(prefix);
    if p.len() > x.len() {
        return false;
    }
    let mut i: usize = 0;
    while i < p.len()
        invariant
            x@ == s@,
            p@ == prefix@,
            p@.len() <= x@.len(),
            i <= p@.len(),
            forall|k: int| 0 <= k < i ==> x@[k] == p@[k],
        decreases p@.len() - i,
    {
        if x[i] != p[i] {
            assert(s@.subrange(0, prefix@.len() as int)[i as int] != prefix@[i as int]);
            return false;
        }
        i = i + 1;
    }
    assert(s@.subrange(0, prefix@.len() as int) =~= prefix@);
    true
}

/// Whether a text ends in `suffix`.
pub fn ends_with(s: &str, suffix: &str) -> (b: bool)
    ensures
        b == suffix@.is_suffix_of(s@),
{
    let x = chars_of(s);
    let p = chars_of(suffix);
    if p.len() > x.len() {
        return false;
    }
    let total: usize = x.len();
    let gap: usize = total - p.len();
    let mut i: usize = 0;
    while i < p.len()
        invariant
            x@ == s@,
            p@ == suffix@,
            total == x@.len(),
            gap == total - p@.len(),
            i <= p@.len(),
            forall|k: int| 0 <= k < i ==> x@[gap + k] == p@[k],
        decreases p@.len() - i,
    {
        if x[gap + i] != p[i] {
            assert(s@.subrange(s@.len() - suffix@.len(), s@.len() as int)[i as int]
                != suffix@[i as int]);
            return false;
        }
        i = i + 1;
    }
    assert(s@.subrange(s@.len() - suffix@.len(), s@.len() as int) =~= suffix@);
    true
}

/// The characters of a text from one place to another.
pub fn part(chars: &Vec<char>, from: usize, to: usize) -> (s: String)
    requires
        from <= to <= chars@.len(),
    ensures
        s@ == chars@.subrange(from as int, to as int),
{
    let mut out: Vec<char> = Vec::new();
    let mut i: usize = from;
    while i < to
        invariant
            from <= i <= to <= chars@.len(),
            out@ == chars@.subrange(from as int, i as int),
        decreases to - i,
    {
        out.push(chars[i]);
        assert(chars@.subrange(from as int, i + 1) =~= chars@.subrange(from as int, i as int).push(
            chars@[i as int],
        ));
        i = i + 1;
    }
    string_of(&out)
}

/// Whether a character is Unicode white space.
pub fn char_is_white(c: char) -> (b: bool)
    ensures
        b == is_white(c),
{
    ('\u{9}' <= c && c <= '\u{d}') || c == ' ' || c == '\u{85}' || c == '\u{a0}' || c
        == '\u{1680}' || ('\u{2000}' <= c && c <= '\u{200a}') || c == '\u{2028}' || c == '\u{2029}'
        || c == '\u{202f}' || c == '\u{205f}' || c == '\u{3000}'
}

/// The text without white space at its ends.
pub fn trim(s: &str) -> (t: String)
    ensures
        t@ == trimmed(s@),
{
    let chars = chars_of(s);
    let mut start: usize = 0;
    assert(chars@.subrange(0, chars@.len() as int) =~= chars@);
    while start < chars.len() && char_is_white(chars[start])
        invariant
            start <= chars@.len(),
            trim_start(chars@) == trim_start(chars@.subrange(start as int, chars@.len() as int)),
        decreases chars@.len() - start,
    {
        assert(chars@.subrange(start as int, chars@.len() as int).subrange(
            1,
            chars@.len() - start,
        ) =~= chars@.subrange(start + 1, chars@.len() as int));
        start = start + 1;
    }
    let ghost rest = chars@.subrange(start as int, chars@.len() as int);
    assert(trim_start(chars@) == rest);
    let mut end: usize = chars.len();
    while end > start && char_is_white(chars[end - 1])
        invariant
            start <= end <= chars@.len(),
            rest == chars@.subrange(start as int, chars@.len() as int),
            trim_end(rest) == trim_end(chars@.subrange(start as int, end as int)),
        decreases end,
    {
        assert(chars@.subrange(start as int, end as int).drop_last() =~= chars@.subrange(
            start as int,
            end - 1,
        ));
        end = end - 1;
    }
    let mut kept: Vec<char> = Vec::new();
    let mut i: usize = start;
    while i < end
        invariant
            start <= i <= end <= chars@.len(),
            kept@ == chars@.subrange(start as int, i as int),
        decreases end - i,
    {
        kept.push(chars[i]);
        i = i + 1;
        assert(kept@ =~= chars@.subrange(start as int, i as int));
    }
    string_of(&kept)
}

/// The character of a digit below sixteen.
fn digit(d: u8) -> (c: char)
    requires
        d < 16,
    ensures
        c == digit_char(d as nat),
{
    if d < 10 {
        (48 + d) as char
    } else {
        (87 + d) as char
    }
}

fn decimal_chars(n: u64) -> (chars: Vec<char>)
    ensures
        chars@ == decimal(n as nat),
    decreases n,
{
    if n < 10 {
        let mut chars: Vec<char> = Vec::new();
        chars.push(digit(n as u8));
        assert(chars@ =~= seq![digit_char(n as nat)]);
        chars
    } else {
        let mut chars = decimal_chars(n / 10);
        chars.push(digit((n % 10) as u8));
        chars
    }
}

/// A number in decimal.
pub fn decimal_text(n: u64) -> (s: String)
    ensures
        s@ == decimal(n as nat),
{
    string_of(&decimal_chars(n))
}

fn hex_chars(n: u64, width: usize) -> (chars: Vec<char>)
    ensures
        chars@ == hex(n as nat, width as nat),
    decreases width,
{
    if width == 0 {
        Vec::new()
    } else {
        let mut chars = hex_chars(n / 16, width - 1);
        chars.push(digit((n % 16) as u8));
        chars
    }
}

/// The last `width` hexadecimal digits of a number.
pub fn hex_text(n: u64, width: usize) -> (s: String)
    ensures
        s@ == hex(n as nat, width as nat),
{
    string_of(&hex_chars(n, width))
}

/// A number in decimal, padded with zeros to `width`; a minus sign counts.
pub fn padded_text(n: i64, width: usize) -> (s: String)
    requires
        n > i64::MIN,
        width > 0,
    ensures
        s@ == padded(n as int, width as nat),
{
    let negative = n < 0;
    let magnitude: u64 = if negative {
        (-n) as u64
    } else {
        n as u64
    };
    let room: usize = if negative {
        width - 1
    } else {
        width
    };
    let digits = decimal_chars(magnitude);
    let mut chars: Vec<char> = Vec::new();
    if negative {
        chars.push('-');
    }
    let ghost sign = chars@;
    let ghost goal = zero_filled(decimal(magnitude as nat), room as nat);
    let ghost mut filled = decimal(magnitude as nat);
    let mut count: usize = digits.len();
    while count < room
        invariant
            digits@ == decimal(magnitude as nat),
            digits@.len() <= count,
            chars@ + digits@ == sign + filled,
            filled.len() == count,
            goal == zero_filled(filled, room as nat),
            chars@.len() == sign.len() + count - digits@.len(),
            forall|i: int| sign.len() <= i < chars@.len() ==> chars@[i] == '0',
            sign.len() <= chars@.len(),
            chars@.subrange(0, sign.len() as int) == sign,
        decreases room - count,
    {
        let ghost before = chars@;
        chars.push('0');
        proof {
            filled = seq!['0'] + filled;
            assert(chars@.subrange(0, sign.len() as int) =~= sign);
            assert forall|i: int| 0 <= i < (sign + filled).len() implies (chars@ + digits@)[i] == (
            sign + filled)[i] by {
                if i < sign.len() {
                    assert(chars@.subrange(0, sign.len() as int)[i] == chars@[i]);
                } else if i < chars@.len() {
                    if i > sign.len() {
                        assert((before + digits@)[i - 1] == (sign + (filled.subrange(
                            1,
                            filled.len() as int,
                        )))[i - 1]);
                        assert(filled.subrange(1, filled.len() as int) =~= filled.drop_first());
                    }
                } else {
                    assert((before + digits@)[i - 1] == digits@[i - chars@.len()]);
                }
            }
            assert(chars@ + digits@ =~= sign + filled);
        }
        count = count + 1;
    }
    let ghost zeros = chars@;
    let mut i: usize = 0;
    while i < digits.len()
        invariant
            i <= digits@.len(),
            chars@ == zeros + digits@.take(i as int),
        decreases digits@.len() - i,
    {
        chars.push(digits[i]);
        i = i + 1;
        assert(chars@ =~= zeros + digits@.take(i as int));
    }
    assert(digits@.take(digits@.len() as int) =~= digits@);
    assert(goal == filled);
    assert(seq!['-'] =~= Seq::<char>::empty().push('-'));
    assert(Seq::<char>::empty() + filled =~= filled);
    string_of(&chars)
}

proof fn lemma_digits_prefix(s: Seq<char>, k: int)
    requires
        0 <= k <= s.len(),
        digits_value(s) is Some,
    ensures
        digits_value(s.take(k)) is Some,
        digits_value(s.take(k))->0 <= digits_value(s)->0,
    decreases s.len(),
{
    if k == s.len() {
        assert(s.take(k) =~= s);
    } else {
        lemma_digits_prefix(s.drop_last(), k);
        assert(s.drop_last().take(k) =~= s.take(k));
    }
}

proof fn lemma_decimal_digits(n: nat)
    ensures
        decimal(n).len() > 0,
        decimal(n)[0] != '+',
        digits_value(decimal(n)) == Some(n),
    decreases n,
{
    let d = decimal(n);
    if n < 10 {
        assert(d =~= seq![digit_char(n)]);
        assert(d.drop_last() =~= Seq::empty());
        assert(digits_value(d.drop_last()) == Some(0nat));
    } else {
        lemma_decimal_digits(n / 10);
        assert(d.drop_last() =~= decimal(n / 10));
        assert(d[0] == decimal(n / 10)[0]);
        assert(d.last() == digit_char(n % 10));
    }
}

/// A number written in decimal is read back as itself.
pub proof fn law_decimal_reads_back(n: nat, max: nat)
    requires
        n <= max,
    ensures
        unsigned_value(decimal(n), max) == Some(n),
{
    lemma_decimal_digits(n);
}

/// Reads an unsigned decimal number of at most `max`.
pub fn parse_unsigned(s: &str, max: u64) -> (n: Option<u64>)
    ensures
        match n {
            Some(n) => unsigned_value(s@, max as nat) == Some(n as nat),
            None => unsigned_value(s@, max as nat) is None,
        },
{
    let chars = chars_of(s);
    let start: usize = if chars.len() > 0 && chars[0] == '+' {
        1
    } else {
        0
    };
    let ghost digits = unsigned_digits(s@);
    assert(digits =~= chars@.subrange(start as int, chars@.len() as int));
    if start == chars.len() {
        return None;
    }
    let mut value: u64 = 0;
    let mut i: usize = start;
    assert(digits.take(0) =~= Seq::<char>::empty());
    while i < chars.len()
        invariant
            start <= i <= chars@.len(),
            digits == chars@.subrange(start as int, chars@.len() as int),
            digits == unsigned_digits(s@),
            digits.len() > 0,
            value <= max,
            digits_value(digits.take(i - start)) == Some(value as nat),
        decreases chars@.len() - i,
    {
        let c = chars[i];
        let ghost prefix = digits.take(i - start);
        let ghost longer = digits.take(i - start + 1);
        assert(longer.drop_last() =~= prefix);
        assert(longer.last() == c);
        if !('0' <= c && c <= '9') {
            proof {
                if digits_value(digits) is Some {
                    lemma_digits_prefix(digits, i - start + 1);
                }
            }
            return None;
        }
        let low: u64 = (c as u32 as u64) - 48;
        if low > max || value > (max - low) / 10 {
            proof {
                if digits_value(digits) is Some {
                    lemma_digits_prefix(digits, i - start + 1);
                }
                assert(value * 10 + low > max);
            }
            return None;
        }
        value = value * 10 + low;
        i = i + 1;
    }
    assert(digits.take(digits.len() as int) =~= digits);
    Some(value)
}

/// Two texts, one after the other.
pub fn join(a: &str, b: &str) -> (s: String)
    ensures
        s@ == a@ + b@,
{
    let mut s = a.to_owned();
    s.append(b);
    s
}

/// Three texts, one after the other.
pub fn join3(a: &str, b: &str, c: &str) -> (s: String)
    ensures
        s@ == a@ + b@ + c@,
{
    let mut s = join(a, b);
    s.append(c);
    s
}

/// A power of sixteen.
pub open spec fn power_of_16(width: nat) -> nat
    decreases width,
{
    if width == 0 {
        1
    } else {
        16 * power_of_16((width - 1) as nat)
    }
}

pub proof fn lemma_hex_tells_apart(m: nat, n: nat, width: nat)
    requires
        hex(m, width) == hex(n, width),
    ensures
        m < power_of_16(width) && n < power_of_16(width) ==> m == n,
    decreases width,
{
    if width > 0 {
        let a = hex(m, width);
        let b = hex(n, width);
        assert(a.last() == b.last());
        assert(digit_char(m % 16) == digit_char(n % 16));
        assert(m % 16 == n % 16);
        assert(a.drop_last() =~= hex(m / 16, (width - 1) as nat));
        assert(b.drop_last() =~= hex(n / 16, (width - 1) as nat));
        lemma_hex_tells_apart(m / 16, n / 16, (width - 1) as nat);
    }
}

/// Numbers of 64 bits with the same sixteen hexadecimal digits are the same.
pub proof fn law_hexadecimal_tells_numbers_apart(m: nat, n: nat)
    requires
        m <= u64::MAX,
        n <= u64::MAX,
        hex(m, 16) == hex(n, 16),
    ensures
        m == n,
{
    lemma_hex_tells_apart(m, n, 16);
    reveal_with_fuel(power_of_16, 17);
}

/// White space around a text is cut off, and nothing else is: not within it, and no other
/// character at its ends.
pub proof fn law_trimming_cuts_white_space_at_the_ends(
    front: Seq<char>,
    s: Seq<char>,
    back: Seq<char>,
)
    requires
        forall|i: int| 0 <= i < front.len() ==> is_white(#[trigger] front[i]),
        forall|i: int| 0 <= i < back.len() ==> is_white(#[trigger] back[i]),
        s.len() > 0 ==> !is_white(s[0]) && !is_white(s.last()),
    ensures
        trimmed(front + s + back) == s,
{
    let all = front + s + back;
    lemma_trim_front(front, s + back);
    assert(front + (s + back) =~= all);
    if s.len() > 0 {
        assert((s + back)[0] == s[0]);
        lemma_trim_start_stops(s + back);
        lemma_trim_back(s, back);
        lemma_trim_end_stops(s);
    } else {
        assert(s + back =~= back);
        lemma_trim_front(back, Seq::empty());
        assert(back + Seq::<char>::empty() =~= back);
        assert(trim_start(Seq::<char>::empty()) =~= Seq::empty());
        assert(trim_end(Seq::<char>::empty()) =~= Seq::empty());
    }
}

proof fn lemma_trim_front(front: Seq<char>, rest: Seq<char>)
    requires
        forall|i: int| 0 <= i < front.len() ==> is_white(#[trigger] front[i]),
    ensures
        trim_start(front + rest) == trim_start(rest),
    decreases front.len(),
{
    if front.len() > 0 {
        let tail = front.drop_first();
        assert((front + rest)[0] == front[0]);
        assert((front + rest).subrange(1, (front + rest).len() as int) =~= tail + rest);
        assert((front + rest).drop_first() =~= tail + rest);
        lemma_trim_front(tail, rest);
    } else {
        assert(front + rest =~= rest);
    }
}

proof fn lemma_trim_start_stops(s: Seq<char>)
    requires
        s.len() > 0,
        !is_white(s[0]),
    ensures
        trim_start(s) == s,
{
}

proof fn lemma_trim_end_stops(s: Seq<char>)
    requires
        s.len() > 0,
        !is_white(s.last()),
    ensures
        trim_end(s) == s,
{
}

proof fn lemma_trim_back(s: Seq<char>, back: Seq<char>)
    requires
        forall|i: int| 0 <= i < back.len() ==> is_white(#[trigger] back[i]),
    ensures
        trim_end(s + back) == trim_end(s),
    decreases back.len(),
{
    if back.len() > 0 {
        let init = back.drop_last();
        assert((s + back).last() == back.last());
        assert((s + back).drop_last() =~= s + init);
        lemma_trim_back(s, init);
    } else {
        assert(s + back =~= s);
    }
}

/// A text is blank exactly where all its characters are white space.
pub proof fn law_blank_texts_are_white_space(s: Seq<char>)
    ensures
        trimmed(s).len() == 0 <==> (forall|i: int| 0 <= i < s.len() ==> is_white(#[trigger] s[i])),
    decreases s.len(),
{
    if s.len() > 0 && is_white(s[0]) {
        let rest = s.drop_first();
        law_blank_texts_are_white_space(rest);
        lemma_trim_front(seq![s[0]], rest);
        assert(seq![s[0]] + rest =~= s);
        assert(trimmed(s) == trimmed(rest));
        if trimmed(s).len() == 0 {
            assert forall|i: int| 0 <= i < s.len() implies is_white(#[trigger] s[i]) by {
                if i > 0 {
                    assert(rest[i - 1] == s[i]);
                }
            }
        } else {
            let i = choose|i: int| 0 <= i < rest.len() && !is_white(#[trigger] rest[i]);
            assert(s[i + 1] == rest[i]);
        }
    } else if s.len() > 0 {
        lemma_trim_start_stops(s);
        lemma_trim_end_keeps_front(s);
        assert(!is_white(s[0]));
    } else {
        assert(trimmed(s).len() == 0);
    }
}

proof fn lemma_trim_end_keeps_front(s: Seq<char>)
    requires
        s.len() > 0,
        !is_white(s[0]),
    ensures
        trim_end(s).len() > 0,
    decreases s.len(),
{
    if is_white(s.last()) {
        assert(s.drop_last()[0] == s[0]);
        lemma_trim_end_keeps_front(s.drop_last());
    }
}

/// The first digits of a hexadecimal number are those of its upper part.
pub proof fn lemma_hex_front(n: nat, width: nat, low: nat)
    ensures
        hex(n, width + low).len() == width + low,
        hex(n, width + low).subrange(0, width as int) == hex(n / power_of_16(low), width),
        power_of_16(low) > 0,
    decreases low,
{
    lemma_hex_len(n, width + low);
    if low == 0 {
        lemma_hex_len(n, width);
        assert(n / 1 == n);
        assert(hex(n, width).subrange(0, width as int) =~= hex(n, width));
    } else {
        let less = (low - 1) as nat;
        lemma_hex_front(n / 16, width, less);
        lemma_hex_len(n / 16, width + less);
        assert(hex(n, width + low).drop_last() =~= hex(n / 16, width + less));
        assert(hex(n, width + low).subrange(0, width as int) =~= hex(n / 16, width + less).subrange(
            0,
            width as int,
        ));
        let p = power_of_16(less);
        assert(n / 16 / p == n / (16 * p)) by {
            vstd::arithmetic::div_mod::lemma_div_denominator(n as int, 16, p as int);
        }
    }
}

proof fn lemma_leading_zero(s: Seq<char>)
    ensures
        digits_value(seq!['0'] + s) == digits_value(s),
    decreases s.len(),
{
    let all = seq!['0'] + s;
    assert(all.last() == if s.len() > 0 {
        s.last()
    } else {
        '0'
    });
    if s.len() > 0 {
        assert(all.drop_last() =~= seq!['0'] + s.drop_last());
        lemma_leading_zero(s.drop_last());
    } else {
        assert(all.drop_last() =~= Seq::empty());
        assert(s =~= Seq::empty());
        reveal_with_fuel(digits_value, 2);
    }
}

proof fn lemma_zero_filled(s: Seq<char>, width: nat)
    ensures
        digits_value(zero_filled(s, width)) == digits_value(s),
        zero_filled(s, width).len() == if s.len() < width {
            width
        } else {
            s.len()
        },
    decreases width - s.len(),
{
    if s.len() < width {
        lemma_leading_zero(s);
        lemma_zero_filled(seq!['0'] + s, width);
    }
}

proof fn lemma_decimal_width(n: nat, width: nat)
    requires
        n < power_of_10(width),
        width > 0,
    ensures
        decimal(n).len() <= width,
    decreases n,
{
    reveal_with_fuel(power_of_10, 2);
    if n >= 10 {
        assert(width > 1);
        lemma_decimal_width(n / 10, (width - 1) as nat);
    }
}

/// A power of ten.
pub open spec fn power_of_10(width: nat) -> nat
    decreases width,
{
    if width == 0 {
        1
    } else {
        10 * power_of_10((width - 1) as nat)
    }
}

/// A number that is padded to a width has that width where its digits fit, and reads
/// back.
pub proof fn law_padded_number_reads_back(n: nat, width: nat)
    requires
        width > 0,
    ensures
        digits_value(padded(n as int, width)) == Some(n),
        n < power_of_10(width) ==> padded(n as int, width).len() == width,
        width == 2 && n < 100 ==> padded(n as int, width).len() == 2,
        width == 4 && n < 10_000 ==> padded(n as int, width).len() == 4,
{
    lemma_zero_filled(decimal(n), width);
    law_decimal_reads_back(n, n);
    lemma_decimal_first(n);
    reveal_with_fuel(power_of_10, 5);
    assert(power_of_10(2) == 100);
    assert(power_of_10(4) == 10_000);
    if n < power_of_10(width) {
        lemma_decimal_width(n, width);
    }
}

proof fn lemma_decimal_first(n: nat)
    ensures
        decimal(n).len() > 0,
        decimal(n)[0] != '+',
        unsigned_digits(decimal(n)) == decimal(n),
    decreases n,
{
    if n >= 10 {
        lemma_decimal_first(n / 10);
        assert(decimal(n)[0] == decimal(n / 10)[0]);
    }
}

/// Of the ASCII characters, those that are printed are not white space, and the space,
/// the tab and the ends of lines are.
pub proof fn law_printed_characters_are_not_white_space(c: char)
    requires
        (c as u32) < 127,
    ensures
        '!' <= c ==> !is_white(c),
        c == ' ' || c == '\t' || c == '\n' || c == '\r' ==> is_white(c),
{
}

/// A text stands for a number where it has digits, with one plus sign before them or
/// none, and where that number is within the limit.
pub proof fn law_numbers_have_digits_only(s: Seq<char>, max: nat)
    ensures
        unsigned_value(s, max) matches Some(n) ==> n <= max && s.len() > 0 && forall|i: int|
            0 < i < s.len() ==> '0' <= #[trigger] s[i] <= '9',
        unsigned_value(s, max) is Some ==> '0' <= s[0] <= '9' || s[0] == '+' && s.len() > 1,
{
    if unsigned_value(s, max) is Some {
        let digits = unsigned_digits(s);
        lemma_all_digits(digits);
        assert forall|i: int| 0 < i < s.len() implies '0' <= #[trigger] s[i] <= '9' by {
            if s[0] == '+' {
                assert(digits[i - 1] == s[i]);
            } else {
                assert(digits[i] == s[i]);
            }
        }
        if s[0] != '+' {
            assert(digits[0] == s[0]);
        }
    }
}

proof fn lemma_all_digits(s: Seq<char>)
    requires
        digits_value(s) is Some,
    ensures
        forall|i: int| 0 <= i < s.len() ==> '0' <= #[trigger] s[i] <= '9',
    decreases s.len(),
{
    if s.len() > 0 {
        lemma_all_digits(s.drop_last());
        assert forall|i: int| 0 <= i < s.len() implies '0' <= #[trigger] s[i] <= '9' by {
            if i < s.len() - 1 {
                assert(s.drop_last()[i] == s[i]);
            }
        }
    }
}

/// What is written is read: a number in decimal reads back, white space around a text is
/// cut off, and a number that is padded reads back too.
pub proof fn law_numbers_and_texts_read_back(
    n: u64,
    text: String,
    max: u64,
    read: Option<u64>,
    s: &str,
    t: String,
    p: i64,
    width: usize,
    padded_number: String,
    digits: &str,
)
    requires
        call_ensures(decimal_text, (n,), text),
        digits@ == text@,
        call_ensures(parse_unsigned, (digits, max), read),
        call_ensures(trim, (s,), t),
        p >= 0,
        width > 0,
        call_ensures(padded_text, (p, width), padded_number),
    ensures
        n <= max ==> read == Some(n),
        n > max ==> read is None,
        t@.len() > 0 ==> !is_white(t@[0]) && !is_white(t@.last()),
        digits_value(padded_number@) == Some(p as nat),
        padded_number@.len() >= width,
{
    if n <= max {
        law_decimal_reads_back(n as nat, max as nat);
    }
    law_decimal_reads_back(n as nat, u64::MAX as nat);
    law_padded_number_reads_back(p as nat, width as nat);
    lemma_zero_filled(decimal(p as nat), width as nat);
    lemma_trim_start_ends(s@);
    lemma_trim_end_ends(trim_start(s@));
}

proof fn lemma_trim_start_ends(s: Seq<char>)
    ensures
        trim_start(s).len() > 0 ==> !is_white(trim_start(s)[0]),
    decreases s.len(),
{
    if s.len() > 0 && is_white(s[0]) {
        lemma_trim_start_ends(s.subrange(1, s.len() as int));
    }
}

proof fn lemma_trim_end_ends(s: Seq<char>)
    requires
        s.len() > 0 ==> !is_white(s[0]),
    ensures
        trim_end(s).len() > 0 ==> !is_white(trim_end(s).last()) && trim_end(s)[0] == s[0],
    decreases s.len(),
{
    if s.len() > 0 && is_white(s.last()) {
        assert(s.drop_last().len() > 0);
        assert(s.drop_last()[0] == s[0]);
        lemma_trim_end_ends(s.drop_last());
    }
}

} // verus!
