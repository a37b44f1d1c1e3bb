//! Reading of human-readable sizes such as `10KB` or `2 MiB`, and shortening
//! of text for display.

use vstd::prelude::*;
use vstd::string::*;
use crate::errors::{FsError, FsErrorView};
use crate::models::{Entry, EntryKind};
use crate::text::{
    all_digits, digits_value, is_digit, lemma_digits_value_grows, split_on, split_windows,
    str_eq, substring, to_chars, to_uppercase, trim_window, trimmed, uppercase_of, window_text,
    windows_text, windows_within,
};

verus! {

/// The largest number of fractional digits that count; further digits are
/// dropped.
pub const FRACTION_DIGITS: usize = 18;

/// Ten to the power `n`.
pub open spec fn pow10(n: nat) -> nat
    decreases n,
{
    if n == 0 {
        1
    } else {
        10 * pow10((n - 1) as nat)
    }
}

/// All pieces joined, in order.
pub open spec fn joined(pieces: Seq<Seq<char>>) -> Seq<char>
    decreases pieces.len(),
{
    if pieces.len() == 0 {
        Seq::<char>::empty()
    } else {
        joined(pieces.drop_last()) + pieces.last()
    }
}

/// `s` without any space character.
pub open spec fn without_spaces(s: Seq<char>) -> Seq<char> {
    joined(split_on(s, ' '))
}

/// Whether `c` can occur in a decimal number: a digit, a sign or the point.
pub open spec fn is_numeric_char(c: char) -> bool {
    is_digit(c) || c == '+' || c == '-' || c == '.'
}

/// Length of the run of numeric characters at the start of `s`.
pub open spec fn numeric_len(s: Seq<char>) -> nat
    decreases s.len(),
{
    if s.len() > 0 && is_numeric_char(s[0]) {
        1 + numeric_len(s.drop_first())
    } else {
        0
    }
}

/// Length of the run of digits at the start of `s`.
pub open spec fn digit_run(s: Seq<char>) -> nat
    decreases s.len(),
{
    if s.len() > 0 && is_digit(s[0]) {
        1 + digit_run(s.drop_first())
    } else {
        0
    }
}

/// A decimal number taken apart: its sign, the digits before the point and
/// the digits after it.
pub struct Decimal {
    pub negative: bool,
    pub whole: Seq<char>,
    pub fraction: Seq<char>,
}

/// The parts of a decimal number: an optional sign, then digits with at most
/// one point among them, and at least one digit in all.
pub open spec fn decimal_of(text: Seq<char>) -> Option<Decimal> {
    let signed = text.len() > 0 && (text[0] == '+' || text[0] == '-');
    let negative = signed && text[0] == '-';
    let body = if signed {
        text.drop_first()
    } else {
        text
    };
    let w = digit_run(body) as int;
    if w == body.len() {
        if w > 0 {
            Some(Decimal { negative, whole: body, fraction: Seq::<char>::empty() })
        } else {
            None
        }
    } else if body[w] == '.' && all_digits(body.skip(w + 1)) && body.len() > 1 {
        Some(Decimal { negative, whole: body.take(w), fraction: body.skip(w + 1) })
    } else {
        None
    }
}

/// The number of bytes that an upper-case unit stands for.
pub open spec fn unit_multiplier(unit: Seq<char>) -> Option<u64> {
    if unit == ""@ || unit == "B"@ {
        Some(1)
    } else if unit == "KB"@ {
        Some(1_000)
    } else if unit == "KIB"@ {
        Some(1_024)
    } else if unit == "MB"@ {
        Some(1_000_000)
    } else if unit == "MIB"@ {
        Some(1_048_576)
    } else if unit == "GB"@ {
        Some(1_000_000_000)
    } else if unit == "GIB"@ {
        Some(1_073_741_824)
    } else if unit == "TB"@ {
        Some(1_000_000_000_000)
    } else if unit == "TIB"@ {
        Some(1_099_511_627_776)
    } else {
        None
    }
}

/// The fractional digits that count.
pub open spec fn kept_fraction(fraction: Seq<char>) -> Seq<char> {
    if fraction.len() <= FRACTION_DIGITS {
        fraction
    } else {
        fraction.take(FRACTION_DIGITS as int)
    }
}

/// The whole number of bytes in `number` units of `multiplier` bytes: the
/// exact product, cut down to a whole number. A negative number stands for
/// no bytes, and a product beyond the largest size stands for the largest.
pub open spec fn bytes_in(number: Decimal, multiplier: u64) -> u64 {
    let kept = kept_fraction(number.fraction);
    let exact = digits_value(number.whole) * multiplier + (digits_value(kept) * multiplier)
        / (pow10(kept.len()) as int);
    if number.negative {
        0
    } else if exact > u64::MAX {
        u64::MAX
    } else {
        exact as u64
    }
}

/// The size that a prepared text denotes: a decimal number followed by a
/// unit, the unit beginning at the first character that cannot belong to a
/// number.
pub open spec fn size_of(text: Seq<char>) -> Option<u64> {
    let n = numeric_len(text) as int;
    match (decimal_of(text.take(n)), unit_multiplier(text.skip(n))) {
        (Some(number), Some(multiplier)) => Some(bytes_in(number, multiplier)),
        _ => None,
    }
}

/// The text that a size is read from: the input without surrounding white
/// space, in upper case, without spaces.
pub open spec fn prepared_size_text(input: Seq<char>) -> Seq<char> {
    without_spaces(uppercase_of(trimmed(input)))
}

proof fn lemma_numeric_len(s: Seq<char>)
    ensures
        numeric_len(s) <= s.len(),
    decreases s.len(),
{
    if s.len() > 0 && is_numeric_char(s[0]) {
        lemma_numeric_len(s.drop_first());
    }
}

proof fn lemma_digit_run(s: Seq<char>)
    ensures
        digit_run(s) <= s.len(),
        all_digits(s.take(digit_run(s) as int)),
        digit_run(s) < s.len() ==> !is_digit(s[digit_run(s) as int]),
        all_digits(s) <==> digit_run(s) == s.len(),
    decreases s.len(),
{
    if s.len() > 0 && is_digit(s[0]) {
        let rest = s.drop_first();
        lemma_digit_run(rest);
        let n = digit_run(s) as int;
        assert forall|i: int| 0 <= i < n implies is_digit(#[trigger] s.take(n)[i]) by {
            if i > 0 {
                assert(s.take(n)[i] == rest.take(n - 1)[i - 1]);
            }
        }
        if n < s.len() {
            assert(s[n] == rest[n - 1]);
        }
        if all_digits(rest) {
            assert forall|i: int| 0 <= i < s.len() implies is_digit(#[trigger] s[i]) by {
                if i > 0 {
                    assert(s[i] == rest[i - 1]);
                }
            }
        }
        if all_digits(s) {
            assert forall|i: int| 0 <= i < rest.len() implies is_digit(#[trigger] rest[i]) by {
                assert(rest[i] == s[i + 1]);
            }
        }
    } else {
        assert(s.take(0) =~= Seq::<char>::empty());
        if s.len() > 0 {
            assert(!is_digit(s[0]));
        }
    }
}

proof fn lemma_digits_below_pow10(s: Seq<char>)
    requires
        all_digits(s),
    ensures
        digits_value(s) < pow10(s.len()),
    decreases s.len(),
{
    if s.len() > 0 {
        assert(is_digit(s[s.len() - 1]));
        assert forall|i: int| 0 <= i < s.drop_last().len() implies is_digit(
            #[trigger] s.drop_last()[i],
        ) by {
            assert(s.drop_last()[i] == s[i]);
        }
        lemma_digits_below_pow10(s.drop_last());
    }
}

/// End of the run of numeric characters that starts at `from`.
fn numeric_end(v: &Vec<char>, from: usize, to: usize) -> (end: usize)
    requires
        from <= to <= v.len(),
    ensures
        from <= end <= to,
        end - from == numeric_len(v@.subrange(from as int, to as int)),
{
    let mut i = from;
    while i < to && (('0' <= v[i] && v[i] <= '9') || v[i] == '+' || v[i] == '-' || v[i] == '.')
        invariant
            from <= i <= to <= v.len(),
            numeric_len(v@.subrange(from as int, to as int)) == (i - from) + numeric_len(
                v@.subrange(i as int, to as int),
            ),
        decreases to - i,
    {
        proof {
            let cur = v@.subrange(i as int, to as int);
            assert(cur[0] == v@[i as int]);
            assert(cur.drop_first() =~= v@.subrange(i + 1, to as int));
        }
        i = i + 1;
    }
    proof {
        let cur = v@.subrange(i as int, to as int);
        if i < to {
            assert(cur[0] == v@[i as int]);
        }
    }
    i
}

/// End of the run of digits that starts at `from`.
fn digits_end(v: &Vec<char>, from: usize, to: usize) -> (end: usize)
    requires
        from <= to <= v.len(),
    ensures
        from <= end <= to,
        end - from == digit_run(v@.subrange(from as int, to as int)),
{
    let mut i = from;
    while i < to && '0' <= v[i] && v[i] <= '9'
        invariant
            from <= i <= to <= v.len(),
            digit_run(v@.subrange(from as int, to as int)) == (i - from) + digit_run(
                v@.subrange(i as int, to as int),
            ),
        decreases to - i,
    {
        proof {
            let cur = v@.subrange(i as int, to as int);
            assert(cur[0] == v@[i as int]);
            assert(cur.drop_first() =~= v@.subrange(i + 1, to as int));
        }
        i = i + 1;
    }
    proof {
        let cur = v@.subrange(i as int, to as int);
        if i < to {
            assert(cur[0] == v@[i as int]);
        }
    }
    i
}

/// The value of the digits in `[from, to)`, or `cap` if the value is larger.
fn capped_digits(v: &Vec<char>, from: usize, to: usize, cap: u128) -> (value: u128)
    requires
        from <= to <= v.len(),
        all_digits(v@.subrange(from as int, to as int)),
        cap <= 0x1_0000_0000_0000_0000_0000,
    ensures
        value == (if digits_value(v@.subrange(from as int, to as int)) <= cap {
            digits_value(v@.subrange(from as int, to as int)) as u128
        } else {
            cap
        }),
{
    let ghost body = v@.subrange(from as int, to as int);
    let mut acc: u128 = 0;
    let mut i = from;
    proof {
        assert(body.take(0) =~= Seq::<char>::empty());
    }
    while i < to
        invariant
            from <= i <= to <= v.len(),
            body == v@.subrange(from as int, to as int),
            all_digits(body),
            cap <= 0x1_0000_0000_0000_0000_0000,
            acc == digits_value(body.take(i - from)),
            acc <= cap,
        decreases to - i,
    {
        let c = v[i];
        proof {
            assert(body[i - from] == c);
            assert(is_digit(body[i - from]));
            assert(body.take(i - from + 1).drop_last() =~= body.take(i - from));
            assert(body.take(i - from + 1).last() == c);
        }
        let d: u128 = (c as u32 - '0' as u32) as u128;
        let next: u128 = acc * 10 + d;
        if next > cap {
            proof {
                lemma_digits_value_grows(body, i - from + 1);
            }
            return cap;
        }
        acc = next;
        i = i + 1;
    }
    proof {
        assert(body.take(to - from) =~= body);
    }
    acc
}

/// The multiplier of an upper-case unit.
pub fn multiplier_of(unit: &str) -> (r: Option<u64>)
    ensures
        r == unit_multiplier(unit@),
{
    if str_eq(unit, "") || str_eq(unit, "B") {
        Some(1)
    } else if str_eq(unit, "KB") {
        Some(1_000)
    } else if str_eq(unit, "KIB") {
        Some(1_024)
    } else if str_eq(unit, "MB") {
        Some(1_000_000)
    } else if str_eq(unit, "MIB") {
        Some(1_048_576)
    } else if str_eq(unit, "GB") {
        Some(1_000_000_000)
    } else if str_eq(unit, "GIB") {
        Some(1_073_741_824)
    } else if str_eq(unit, "TB") {
        Some(1_000_000_000_000)
    } else if str_eq(unit, "TIB") {
        Some(1_099_511_627_776)
    } else {
        None
    }
}

/// Where the parts of a decimal number lie in a character buffer.
pub struct NumberParts {
    pub negative: bool,
    pub whole: (usize, usize),
    pub fraction: (usize, usize),
}

/// Takes the number in `[from, to)` apart.
fn split_number(v: &Vec<char>, from: usize, to: usize) -> (r: Option<NumberParts>)
    requires
        from <= to <= v.len(),
    ensures
        match r {
            Some(parts) => {
                &&& from <= parts.whole.0 <= parts.whole.1 <= to
                &&& parts.whole.1 <= parts.fraction.0 <= parts.fraction.1 == to
                &&& all_digits(window_text(v@, parts.whole))
                &&& all_digits(window_text(v@, parts.fraction))
                &&& decimal_of(v@.subrange(from as int, to as int)) == Some(
                    Decimal {
                        negative: parts.negative,
                        whole: window_text(v@, parts.whole),
                        fraction: window_text(v@, parts.fraction),
                    },
                )
            },
            None => decimal_of(v@.subrange(from as int, to as int)).is_none(),
        },
{
    let ghost text = v@.subrange(from as int, to as int);
    let signed = from < to && (v[from] == '+' || v[from] == '-');
    let negative = signed && v[from] == '-';
    let start = if signed {
        from + 1
    } else {
        from
    };
    let ghost body = v@.subrange(start as int, to as int);
    proof {
        if from < to {
            assert(text[0] == v@[from as int]);
        }
        if signed {
            assert(text.drop_first() =~= body);
        }
        lemma_digit_run(body);
    }
    let point = digits_end(v, start, to);
    let ghost w = (point - start) as int;
    proof {
        assert(body.take(w) =~= v@.subrange(start as int, point as int));
    }
    if point == to {
        if point == start {
            return None;
        }
        proof {
            assert(body.take(w) =~= body);
            assert(v@.subrange(to as int, to as int) =~= Seq::<char>::empty());
        }
        return Some(NumberParts { negative, whole: (start, point), fraction: (to, to) });
    }
    proof {
        assert(body[w] == v@[point as int]);
    }
    if v[point] != '.' {
        return None;
    }
    let frac_from = point + 1;
    proof {
        assert(body.skip(w + 1) =~= v@.subrange(frac_from as int, to as int));
        lemma_digit_run(v@.subrange(frac_from as int, to as int));
    }
    let frac_digits = digits_end(v, frac_from, to);
    if frac_digits != to {
        return None;
    }
    if to - start <= 1 {
        return None;
    }
    Some(NumberParts { negative, whole: (start, point), fraction: (frac_from, to) })
}

/// The fractional part of the product: the digits in `[from, to)`, read as
/// a fraction, times `multiplier`, cut down to a whole number.
fn scale_fraction(v: &Vec<char>, from: usize, to: usize, multiplier: u64) -> (r: u128)
    requires
        from <= to <= v.len(),
        to - from <= 18,
        all_digits(v@.subrange(from as int, to as int)),
        1 <= multiplier <= 1_099_511_627_776,
    ensures
        r == (digits_value(v@.subrange(from as int, to as int)) * multiplier) / (pow10(
            (to - from) as nat,
        ) as int),
        r <= 1_099_511_627_776,
{
    let ghost kept = v@.subrange(from as int, to as int);
    let mut scale: u128 = 1;
    let mut k: usize = from;
    proof {
        lemma_pow10_grows(0, 18);
    }
    while k < to
        invariant
            from <= k <= to,
            to - from <= 18,
            scale == pow10((k - from) as nat),
            scale <= pow10(18),
            pow10(18) == 1_000_000_000_000_000_000,
        decreases to - k,
    {
        proof {
            lemma_pow10_grows((k - from + 1) as nat, 18);
        }
        scale = scale * 10;
        k = k + 1;
    }
    let value = capped_digits(v, from, to, 1_000_000_000_000_000_000);
    proof {
        lemma_digits_below_pow10(kept);
        lemma_pow10_grows(kept.len(), 18);
        assert(value == digits_value(kept));
        assert(value * multiplier <= 1_000_000_000_000_000_000 * 1_099_511_627_776)
            by (nonlinear_arith)
            requires
                value <= 1_000_000_000_000_000_000,
                multiplier <= 1_099_511_627_776,
        ;
        assert((value * multiplier) / (scale as int) <= multiplier) by (nonlinear_arith)
            requires
                value < scale,
                scale >= 1,
                multiplier >= 1,
        ;
    }
    (value * (multiplier as u128)) / scale
}

/// Reads the number in `[from, to)` and scales it by `multiplier`.
fn scale_number(v: &Vec<char>, from: usize, to: usize, multiplier: u64) -> (r: Option<u64>)
    requires
        from <= to <= v.len(),
        1 <= multiplier <= 1_099_511_627_776,
    ensures
        r == (match decimal_of(v@.subrange(from as int, to as int)) {
            Some(number) => Some(bytes_in(number, multiplier)),
            None => None,
        }),
{
    let parts = match split_number(v, from, to) {
        Some(parts) => parts,
        None => {
            return None;
        },
    };
    if parts.negative {
        return Some(0);
    }
    let ghost whole = window_text(v@, parts.whole);
    let ghost fraction = window_text(v@, parts.fraction);
    let kept_to = if parts.fraction.1 - parts.fraction.0 <= FRACTION_DIGITS {
        parts.fraction.1
    } else {
        parts.fraction.0 + FRACTION_DIGITS
    };
    let ghost kept = v@.subrange(parts.fraction.0 as int, kept_to as int);
    proof {
        assert(kept =~= kept_fraction(fraction));
        assert forall|i: int| 0 <= i < kept.len() implies is_digit(#[trigger] kept[i]) by {
            assert(kept[i] == fraction[i]);
        }
    }
    let fraction_part = scale_fraction(v, parts.fraction.0, kept_to, multiplier);
    let whole_value = capped_digits(v, parts.whole.0, parts.whole.1, 0x1_0000_0000_0000_0000);
    if whole_value >= 0x1_0000_0000_0000_0000 {
        proof {
            assert(digits_value(whole) * multiplier >= 0x1_0000_0000_0000_0000) by (nonlinear_arith)
                requires
                    digits_value(whole) >= 0x1_0000_0000_0000_0000,
                    multiplier >= 1,
            ;
        }
        return Some(u64::MAX);
    }
    proof {
        assert(whole_value * multiplier <= 0x1_0000_0000_0000_0000 * 1_099_511_627_776)
            by (nonlinear_arith)
            requires
                whole_value <= 0x1_0000_0000_0000_0000,
                multiplier <= 1_099_511_627_776,
        ;
    }
    let exact: u128 = whole_value * (multiplier as u128) + fraction_part;
    if exact > 0xffff_ffff_ffff_ffff {
        Some(u64::MAX)
    } else {
        Some(exact as u64)
    }
}

/// Powers of ten grow with the exponent, and the eighteenth is a
/// quintillion.
proof fn lemma_pow10_grows(a: nat, b: nat)
    requires
        a <= b,
    ensures
        pow10(a) <= pow10(b),
        pow10(a) >= 1,
        pow10(18) == 1_000_000_000_000_000_000,
    decreases b,
{
    reveal_with_fuel(pow10, 19);
    if a < b {
        lemma_pow10_grows(a, (b - 1) as nat);
    } else if a > 0 {
        lemma_pow10_grows((a - 1) as nat, (a - 1) as nat);
    }
}

/// Reads a size from a prepared text: upper case, no spaces, a decimal
/// number followed by a unit. Anything else is refused with the text.
pub fn parse_prepared_size(text: &str) -> (r: Result<u64, FsError>)
    ensures
        match size_of(text@) {
            Some(bytes) => r matches Ok(n) && n == bytes,
            None => r matches Err(e) && e@ == (FsErrorView::InvalidSize { input: text@ }),
        },
{
    let v = to_chars(text);
    let split = numeric_end(&v, 0, v.len());
    proof {
        assert(v@.subrange(0, v.len() as int) =~= v@);
        assert(v@.take(split as int) =~= v@.subrange(0, split as int));
        assert(v@.skip(split as int) =~= v@.subrange(split as int, v.len() as int));
    }
    let unit = substring(text, split, v.len());
    match multiplier_of(unit.as_str()) {
        None => Err(FsError::InvalidSize { input: String::from_str(text) }),
        Some(multiplier) => match scale_number(&v, 0, split, multiplier) {
            Some(bytes) => Ok(bytes),
            None => Err(FsError::InvalidSize { input: String::from_str(text) }),
        },
    }
}

/// The text that a size is read from.
pub fn prepare_size_text(input: &str) -> (r: String)
    ensures
        r@ == prepared_size_text(input@),
{
    let raw = to_chars(input);
    let (a, b) = trim_window(&raw, 0, raw.len());
    proof {
        assert(raw@.subrange(0, raw.len() as int) =~= raw@);
    }
    let upper = to_uppercase(substring(input, a, b).as_str());
    let v = to_chars(upper.as_str());
    let pieces = split_windows(&v, 0, v.len(), ' ');
    proof {
        assert(v@.subrange(0, v.len() as int) =~= v@);
    }
    let ghost texts = windows_text(v@, pieces@);
    let mut out = String::new();
    let mut k: usize = 0;
    proof {
        assert(texts.take(0) =~= Seq::<Seq<char>>::empty());
    }
    while k < pieces.len()
        invariant
            k <= pieces.len(),
            v@ == upper@,
            texts == windows_text(v@, pieces@),
            windows_within(pieces@, 0, v.len() as int),
            out@ == joined(texts.take(k as int)),
        decreases pieces.len() - k,
    {
        let w = pieces[k];
        proof {
            assert(texts.take(k + 1).drop_last() =~= texts.take(k as int));
            assert(texts.take(k + 1).last() == window_text(v@, w));
        }
        out.append(upper.as_str().substring_char(w.0, w.1));
        k = k + 1;
    }
    proof {
        assert(texts.take(pieces.len() as int) =~= texts);
    }
    out
}

/// Reads a human-readable size such as `10KB`, `2 MiB` or `500B`: a decimal
/// number and a unit, in any letter case, with spaces anywhere. Units that
/// end in `iB` count in powers of 1024, the others in powers of 1000.
pub fn parse_size(input: &str) -> (r: Result<u64, FsError>)
    ensures
        match size_of(prepared_size_text(input@)) {
            Some(bytes) => r matches Ok(n) && n == bytes,
            None => r matches Err(e) && e@ == (FsErrorView::InvalidSize {
                input: prepared_size_text(input@),
            }),
        },
{
    let prepared = prepare_size_text(input);
    parse_prepared_size(prepared.as_str())
}


/// The text that shows a size in binary units, such as `1 KiB`, as the
/// size formatter writes it.
pub uninterp spec fn binary_size_text(size: u64) -> Seq<char>;

/// Calls `humansize::format_size` with the `BINARY` options: the size in
/// units of 1024 with the suffixes `B`, `KiB`, `MiB` and so on. The text
/// depends on the size alone.
#[verifier::external_body]
pub fn format_size_human(size: u64) -> (r: String)
    ensures
        r@ == binary_size_text(size),
{
    humansize::format_size(size, humansize::BINARY)
}

/// What a listing shows as the size of an entry: the size in binary units
/// for a file, a dash for anything else.
pub open spec fn size_column(kind: EntryKind, size: u64) -> Seq<char> {
    if kind == EntryKind::File {
        binary_size_text(size)
    } else {
        "-"@
    }
}

/// What a listing shows as the size of an entry.
pub fn size_cell(entry: &Entry) -> (r: String)
    ensures
        r@ == size_column(entry.kind, entry.size),
{
    if entry.kind == EntryKind::File {
        format_size_human(entry.size)
    } else {
        String::from_str("-")
    }
}

} // verus!
