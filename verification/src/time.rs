//! Time arguments: a single hour, a time of day, or a range of hours, and the
//! time keys that each stands for.

use vstd::prelude::*;

verus! {

/// Whether `c` is a decimal digit.
pub open spec fn is_digit(c: char) -> bool {
    '0' <= c && c <= '9'
}

/// Whether every character of `text` is a decimal digit.
pub open spec fn all_digits(text: Seq<char>) -> bool {
    forall|i: int| 0 <= i < text.len() ==> is_digit(#[trigger] text[i])
}

/// The number that a run of decimal digits writes.
pub open spec fn decimal_value(digits: Seq<char>) -> int
    decreases digits.len(),
{
    if digits.len() == 0 {
        0
    } else {
        10 * decimal_value(digits.drop_last()) + (digits.last() as int - '0' as int)
    }
}

/// The text of an hour without a plus sign in front of it.
pub open spec fn unsigned_part(text: Seq<char>) -> Seq<char> {
    if text.len() > 1 && text[0] == '+' {
        text.skip(1)
    } else {
        text
    }
}

/// The hour that `text` writes: an optional plus sign, then one or more
/// decimal digits whose value is at most 255. Any other text writes no hour.
pub open spec fn parsed_hour(text: Seq<char>) -> Option<u8> {
    let digits = unsigned_part(text);
    if digits.len() > 0 && all_digits(digits) && decimal_value(digits) <= u8::MAX {
        Some(decimal_value(digits) as u8)
    } else {
        None
    }
}

/// The character for the digit `d`.
pub open spec fn digit_char(d: int) -> char {
    ('0' as int + d) as char
}

/// The decimal digits of `n`, without leading zeros.
pub open spec fn decimal_text(n: int) -> Seq<char>
    decreases n,
{
    if n < 10 {
        seq![digit_char(n)]
    } else {
        decimal_text(n / 10).push(digit_char(n % 10))
    }
}

/// What is appended to an hour to make a time key of it.
pub open spec fn full_hour() -> Seq<char> {
    seq![':', '0', '0']
}

/// The time key of a full hour: its decimal digits, then `:00`.
pub open spec fn hour_key(hour: int) -> Seq<char> {
    decimal_text(hour) + full_hour()
}

/// The time keys of the hours from `start` to `end`, both included, in
/// ascending order; none where `start` is greater than `end`.
pub open spec fn hour_range(start: int, end: int) -> Seq<Seq<char>> {
    Seq::new(
        if start <= end {
            (end - start + 1) as nat
        } else {
            0
        },
        |k: int| hour_key(start + k),
    )
}

/// Whether the one hyphen of `time` stands at `i`.
pub open spec fn is_only_hyphen(time: Seq<char>, i: int) -> bool {
    &&& 0 <= i < time.len()
    &&& time[i] == '-'
    &&& forall|j: int| 0 <= j < time.len() && j != i ==> time[j] != '-'
}

/// The time keys that a time argument stands for.
///
/// With a hyphen it is a range: it must hold exactly one hyphen, with an hour
/// on each side, and stands for every hour from the first to the second.
/// Without a hyphen it stands for itself if it holds a colon, and for itself
/// followed by `:00` otherwise.
pub open spec fn time_keys(time: Seq<char>) -> Seq<Seq<char>> {
    if time.contains('-') {
        if exists|i: int| is_only_hyphen(time, i) {
            let i = choose|i: int| is_only_hyphen(time, i);
            match (parsed_hour(time.take(i)), parsed_hour(time.skip(i + 1))) {
                (Some(start), Some(end)) => hour_range(start as int, end as int),
                _ => Seq::empty(),
            }
        } else {
            Seq::empty()
        }
    } else if time.contains(':') {
        seq![time]
    } else {
        seq![time + full_hour()]
    }
}

/// A run of digits is worth at least as much as any of its prefixes.
proof fn lemma_decimal_value_grows(digits: Seq<char>, k: int)
    requires
        all_digits(digits),
        0 <= k <= digits.len(),
    ensures
        0 <= decimal_value(digits.take(k)) <= decimal_value(digits),
    decreases digits.len(),
{
    if k == digits.len() {
        assert(digits.take(k) =~= digits);
        if k > 0 {
            lemma_decimal_value_grows(digits.drop_last(), k - 1);
        }
    } else {
        lemma_decimal_value_grows(digits.drop_last(), k);
        assert(digits.drop_last().take(k) =~= digits.take(k));
    }
}

/// Every time key holds a colon, so none is empty.
pub proof fn lemma_time_keys_hold_colon(time: Seq<char>)
    ensures
        forall|k: int|
            0 <= k < time_keys(time).len() ==> (#[trigger] time_keys(time)[k]).contains(':'),
{
    assert forall|k: int| 0 <= k < time_keys(time).len() implies (#[trigger] time_keys(
        time,
    )[k]).contains(':') by {
        let key = time_keys(time)[k];
        if time.contains('-') {
            let i = choose|i: int| is_only_hyphen(time, i);
            let start = parsed_hour(time.take(i))->0 as int;
            assert(key[decimal_text(start + k).len() as int] == ':');
        } else if !time.contains(':') {
            assert(key[time.len() as int] == ':');
        }
    }
}

/// The characters of a text, one by one.
fn chars_of(text: &str) -> (chars: Vec<char>)
    ensures
        chars@ == text@,
{
    let mut chars: Vec<char> = Vec::new();
    for c in it: text.chars()
        invariant
            chars@ == it.seq().take(it.index()),
            it.seq() == text@,
    {
        chars.push(c);
    }
    chars
}

/// Reads the hour written by the characters of `chars` from `from` up to `to`.
fn parse_span(chars: &Vec<char>, from: usize, to: usize) -> (hour: Option<u8>)
    requires
        from <= to <= chars.len(),
    ensures
        hour == parsed_hour(chars@.subrange(from as int, to as int)),
{
    let start = if to - from > 1 && chars[from] == '+' {
        from + 1
    } else {
        from
    };
    let ghost digits = chars@.subrange(start as int, to as int);
    if start == to {
        return None;
    }
    let mut value: u32 = 0;
    let mut i = start;
    while i < to
        invariant
            start <= i <= to <= chars.len(),
            from <= start,
            digits == chars@.subrange(start as int, to as int),
            digits == unsigned_part(chars@.subrange(from as int, to as int)),
            all_digits(digits.take(i - start)),
            value == decimal_value(digits.take(i - start)),
            value <= u8::MAX,
        decreases to - i,
    {
        let c = chars[i];
        if !(c >= '0' && c <= '9') {
            assert(!is_digit(digits[i - start]));
            return None;
        }
        let ghost seen = digits.take(i - start + 1);
        assert(seen.drop_last() =~= digits.take(i - start));
        value = value * 10 + (c as u32 - '0' as u32);
        if value > 255 {
            proof {
                if all_digits(digits) {
                    lemma_decimal_value_grows(digits, i - start + 1);
                }
            }
            return None;
        }
        i += 1;
    }
    assert(digits.take(i - start) =~= digits);
    Some(value as u8)
}

/// Reads an hour: an optional plus sign, then decimal digits that write a
/// number up to 255.
pub fn parse_hour(text: &str) -> (hour: Option<u8>)
    ensures
        hour == parsed_hour(text@),
{
    let chars = chars_of(text);
    assert(chars@.subrange(0, chars.len() as int) =~= text@);
    parse_span(&chars, 0, chars.len())
}

/// The text of one decimal digit.
fn digit_text(d: u8) -> (text: &'static str)
    requires
        d < 10,
    ensures
        text@ == seq![digit_char(d as int)],
{
    proof {
        reveal_strlit("0");
        reveal_strlit("1");
        reveal_strlit("2");
        reveal_strlit("3");
        reveal_strlit("4");
        reveal_strlit("5");
        reveal_strlit("6");
        reveal_strlit("7");
        reveal_strlit("8");
        reveal_strlit("9");
    }
    match d {
        0 => "0",
        1 => "1",
        2 => "2",
        3 => "3",
        4 => "4",
        5 => "5",
        6 => "6",
        7 => "7",
        8 => "8",
        _ => "9",
    }
}

/// Writes the time key of a full hour, such as `9:00`.
pub fn format_hour(hour: u8) -> (key: String)
    ensures
        key@ == hour_key(hour as int),
{
    let mut key = String::new();
    if hour >= 100 {
        key.append(digit_text(hour / 100));
    }
    if hour >= 10 {
        key.append(digit_text((hour / 10) % 10));
    }
    key.append(digit_text(hour % 10));
    proof {
        let n = hour as int;
        assert(decimal_text(n / 100) == seq![digit_char(n / 100)]);
        if n >= 10 {
            assert(decimal_text(n / 10) =~= if n >= 100 {
                seq![digit_char(n / 100), digit_char((n / 10) % 10)]
            } else {
                seq![digit_char(n / 10)]
            });
        }
        reveal_strlit(":00");
    }
    key.append(":00");
    key
}

/// Expands a time argument into the time keys it stands for.
///
/// `9-11` gives `9:00`, `10:00`, `11:00`; `9` gives `9:00`; `09:30` gives
/// itself. A range that is not two hours around one hyphen gives no key, and
/// so does one whose first hour is the greater.
pub fn expand_time(time: &str) -> (keys: Vec<String>)
    ensures
        keys.deep_view() == time_keys(time@),
{
    let chars = chars_of(time);
    let n = chars.len();
    let mut hyphens: usize = 0;
    let mut first: usize = 0;
    let mut colon = false;
    let ghost mut second: int = 0;
    let ghost mut colon_at: int = 0;
    let mut i: usize = 0;
    while i < n
        invariant
            i <= n == chars.len(),
            chars@ == time@,
            hyphens <= 2,
            hyphens == 0 ==> forall|j: int| 0 <= j < i ==> time@[j] != '-',
            hyphens >= 1 ==> 0 <= first < i && time@[first as int] == '-',
            hyphens == 1 ==> forall|j: int| 0 <= j < i && j != first ==> time@[j] != '-',
            hyphens == 2 ==> first < second < i && time@[second] == '-',
            colon ==> 0 <= colon_at < i && time@[colon_at] == ':',
            !colon ==> forall|j: int| 0 <= j < i ==> time@[j] != ':',
        decreases n - i,
    {
        if chars[i] == '-' {
            if hyphens == 0 {
                first = i;
                hyphens = 1;
            } else if hyphens == 1 {
                proof {
                    second = i as int;
                }
                hyphens = 2;
            }
        } else if chars[i] == ':' {
            proof {
                colon_at = i as int;
            }
            colon = true;
        }
        i += 1;
    }
    let mut keys: Vec<String> = Vec::new();
    if hyphens == 0 {
        let mut key = String::from_str(time);
        if !colon {
            proof {
                reveal_strlit(":00");
                assert(":00"@ =~= full_hour());
            }
            key.append(":00");
        }
        keys.push(key);
    } else if hyphens == 1 {
        assert(is_only_hyphen(time@, first as int));
        let start = parse_span(&chars, 0, first);
        let end = parse_span(&chars, first + 1, n);
        if let (Some(start), Some(end)) = (start, end) {
            let mut hour: u16 = start as u16;
            while hour <= end as u16
                invariant
                    start <= hour,
                    hour <= end + 1 || hour == start,
                    keys.len() == hour - start,
                    forall|k: int|
                        0 <= k < keys.len() ==> (#[trigger] keys[k])@ == hour_key(start + k),
                decreases end + 1 - hour,
            {
                keys.push(format_hour(hour as u8));
                hour += 1;
            }
        }
    }
    keys
}

} // verus!
