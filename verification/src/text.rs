//! Text primitives. Strings are read as sequences of characters; the
//! functions here work on a window `[from, to)` of a character buffer so that
//! trimming and splitting never copy.

use vstd::prelude::*;
use vstd::string::*;

verus! {

/// White space as Unicode defines it (the `White_Space` property).
pub open spec fn is_space(c: char) -> bool {
    let n = c as u32;
    ||| 0x09 <= n <= 0x0D
    ||| n == 0x20
    ||| n == 0x85
    ||| n == 0xA0
    ||| n == 0x1680
    ||| 0x2000 <= n <= 0x200A
    ||| n == 0x2028
    ||| n == 0x2029
    ||| n == 0x202F
    ||| n == 0x205F
    ||| n == 0x3000
}

/// Number of white-space characters at the start of `s`.
pub open spec fn leading_spaces(s: Seq<char>) -> nat
    decreases s.len(),
{
    if s.len() > 0 && is_space(s[0]) {
        1 + leading_spaces(s.drop_first())
    } else {
        0
    }
}

/// Number of white-space characters at the end of `s`.
pub open spec fn trailing_spaces(s: Seq<char>) -> nat
    decreases s.len(),
{
    if s.len() > 0 && is_space(s.last()) {
        1 + trailing_spaces(s.drop_last())
    } else {
        0
    }
}

/// `s` without its leading and trailing white space.
pub open spec fn trimmed(s: Seq<char>) -> Seq<char> {
    let rest = s.skip(leading_spaces(s) as int);
    rest.take(rest.len() - trailing_spaces(rest))
}

/// Whether `s` holds nothing but white space.
pub open spec fn is_blank_seq(s: Seq<char>) -> bool {
    forall|i: int| 0 <= i < s.len() ==> is_space(#[trigger] s[i])
}

pub proof fn lemma_leading_spaces_bound(s: Seq<char>)
    ensures
        leading_spaces(s) <= s.len(),
        forall|i: int| 0 <= i < leading_spaces(s) ==> is_space(#[trigger] s[i]),
        leading_spaces(s) < s.len() ==> !is_space(s[leading_spaces(s) as int]),
    decreases s.len(),
{
    if s.len() > 0 && is_space(s[0]) {
        let rest = s.drop_first();
        lemma_leading_spaces_bound(rest);
        assert forall|i: int| 0 <= i < leading_spaces(s) implies is_space(#[trigger] s[i]) by {
            if i > 0 {
                assert(s[i] == rest[i - 1]);
            }
        }
        if leading_spaces(s) < s.len() {
            assert(s[leading_spaces(s) as int] == rest[leading_spaces(rest) as int]);
        }
    }
}

pub proof fn lemma_trailing_spaces_bound(s: Seq<char>)
    ensures
        trailing_spaces(s) <= s.len(),
        forall|i: int| s.len() - trailing_spaces(s) <= i < s.len() ==> is_space(#[trigger] s[i]),
        trailing_spaces(s) < s.len() ==> !is_space(s[s.len() - trailing_spaces(s) - 1]),
    decreases s.len(),
{
    if s.len() > 0 && is_space(s.last()) {
        let rest = s.drop_last();
        lemma_trailing_spaces_bound(rest);
        assert forall|i: int| s.len() - trailing_spaces(s) <= i < s.len() implies is_space(
            #[trigger] s[i],
        ) by {
            if i < s.len() - 1 {
                assert(s[i] == rest[i]);
            }
        }
        if trailing_spaces(s) < s.len() {
            assert(s[s.len() - trailing_spaces(s) - 1] == rest[rest.len() - trailing_spaces(rest)
                - 1]);
        }
    }
}

/// The trimmed text is empty exactly when the text is blank.
pub proof fn lemma_trimmed_empty_iff_blank(s: Seq<char>)
    ensures
        trimmed(s).len() == 0 <==> is_blank_seq(s),
{
    lemma_leading_spaces_bound(s);
    let rest = s.skip(leading_spaces(s) as int);
    lemma_trailing_spaces_bound(rest);
    if is_blank_seq(s) {
        if leading_spaces(s) < s.len() {
            assert(is_space(s[leading_spaces(s) as int]));
        }
    } else {
        let i = choose|i: int| 0 <= i < s.len() && !is_space(#[trigger] s[i]);
        assert(leading_spaces(s) <= i);
        let j = i - leading_spaces(s);
        assert(rest[j] == s[i]);
        assert(j < rest.len() - trailing_spaces(rest));
    }
}

/// Whether `c` is Unicode white space.
pub fn is_whitespace(c: char) -> (r: bool)
    ensures
        r == is_space(c),
{
    let n: u32 = c as u32;
    (0x09 <= n && n <= 0x0D) || n == 0x20 || n == 0x85 || n == 0xA0 || n == 0x1680 || (0x2000 <= n
        && n <= 0x200A) || n == 0x2028 || n == 0x2029 || n == 0x202F || n == 0x205F || n == 0x3000
}

/// The characters of a string, in order.
pub fn to_chars(s: &str) -> (v: Vec<char>)
    ensures
        v@ == s@,
{
    let mut v: Vec<char> = Vec::new();
    for c in it: s.chars()
        invariant
            v@ == s@.take(it.index() as int),
            it.seq() == s@,
    {
        v.push(c);
    }
    v
}

/// Whether two strings hold the same characters. The strings are compared
/// byte by byte; equal encodings mean equal texts because decoding undoes
/// encoding.
pub fn str_eq(a: &str, b: &str) -> (r: bool)
    ensures
        r == (a@ == b@),
{
    let x = a.as_bytes();
    let y = b.as_bytes();
    proof {
        vstd::utf8::encode_utf8_decode_utf8(a@);
        vstd::utf8::encode_utf8_decode_utf8(b@);
    }
    if x.len() != y.len() {
        return false;
    }
    let mut i: usize = 0;
    while i < x.len()
        invariant
            i <= x.len(),
            x.len() == y.len(),
            x@ == a.spec_bytes(),
            y@ == b.spec_bytes(),
            forall|j: int| 0 <= j < i ==> x@[j] == y@[j],
        decreases x.len() - i,
    {
        if x[i] != y[i] {
            return false;
        }
        i = i + 1;
    }
    proof {
        assert(x@ =~= y@);
    }
    true
}

/// Narrows the window `[from, to)` of `v` to its trimmed part.
pub fn trim_window(v: &Vec<char>, from: usize, to: usize) -> (r: (usize, usize))
    requires
        from <= to <= v.len(),
    ensures
        from <= r.0 <= r.1 <= to,
        v@.subrange(r.0 as int, r.1 as int) == trimmed(v@.subrange(from as int, to as int)),
{
    let ghost whole = v@.subrange(from as int, to as int);
    let mut a = from;
    while a < to && is_whitespace(v[a])
        invariant
            from <= a <= to <= v.len(),
            whole == v@.subrange(from as int, to as int),
            leading_spaces(whole) == (a - from) + leading_spaces(v@.subrange(a as int, to as int)),
        decreases to - a,
    {
        proof {
            let cur = v@.subrange(a as int, to as int);
            assert(cur[0] == v@[a as int]);
            assert(cur.drop_first() =~= v@.subrange(a + 1, to as int));
        }
        a = a + 1;
    }
    proof {
        let cur = v@.subrange(a as int, to as int);
        if a < to {
            assert(cur[0] == v@[a as int]);
        }
        assert(leading_spaces(cur) == 0);
        assert(whole.skip(leading_spaces(whole) as int) =~= cur);
    }
    let ghost rest = v@.subrange(a as int, to as int);
    let mut b = to;
    while a < b && is_whitespace(v[b - 1])
        invariant
            from <= a <= b <= to <= v.len(),
            rest == v@.subrange(a as int, to as int),
            trailing_spaces(rest) == (to - b) + trailing_spaces(v@.subrange(a as int, b as int)),
        decreases b - a,
    {
        proof {
            let cur = v@.subrange(a as int, b as int);
            assert(cur.last() == v@[b - 1]);
            assert(cur.drop_last() =~= v@.subrange(a as int, b - 1));
        }
        b = b - 1;
    }
    proof {
        let cur = v@.subrange(a as int, b as int);
        if a < b {
            assert(cur.last() == v@[b - 1]);
        }
        assert(trailing_spaces(cur) == 0);
        assert(rest.take(rest.len() - trailing_spaces(rest)) =~= cur);
    }
    (a, b)
}

/// Whether a string is empty or holds only white space.
pub fn is_blank(s: &str) -> (r: bool)
    ensures
        r == is_blank_seq(s@),
{
    let v = to_chars(s);
    let (a, b) = trim_window(&v, 0, v.len());
    proof {
        assert(v@.subrange(0, v.len() as int) =~= v@);
        lemma_trimmed_empty_iff_blank(s@);
    }
    a == b
}


/// A window `[start, end)` into a character buffer.
pub open spec fn window_text(v: Seq<char>, w: (usize, usize)) -> Seq<char> {
    v.subrange(w.0 as int, w.1 as int)
}

/// The texts that a list of windows selects, in order.
pub open spec fn windows_text(v: Seq<char>, ws: Seq<(usize, usize)>) -> Seq<Seq<char>> {
    ws.map_values(|w: (usize, usize)| window_text(v, w))
}

/// Every window lies inside `[from, to)` and is well ordered.
pub open spec fn windows_within(ws: Seq<(usize, usize)>, from: int, to: int) -> bool {
    forall|k: int| 0 <= k < ws.len() ==> from <= (#[trigger] ws[k]).0 <= ws[k].1 <= to
}

/// The pieces of `s` between occurrences of `sep`. There is always at least
/// one piece; a new piece begins after each separator.
pub open spec fn split_on(s: Seq<char>, sep: char) -> Seq<Seq<char>>
    decreases s.len(),
{
    if s.len() == 0 {
        seq![Seq::<char>::empty()]
    } else {
        let before = split_on(s.drop_last(), sep);
        if s.last() == sep {
            before.push(Seq::<char>::empty())
        } else {
            before.drop_last().push(before.last().push(s.last()))
        }
    }
}

/// The maximal runs of characters of `s` that are not white space.
pub open spec fn words(s: Seq<char>) -> Seq<Seq<char>>
    decreases s.len(),
{
    if s.len() == 0 {
        Seq::<Seq<char>>::empty()
    } else {
        let before = words(s.drop_last());
        if is_space(s.last()) {
            before
        } else if s.len() >= 2 && !is_space(s[s.len() - 2]) {
            before.drop_last().push(before.last().push(s.last()))
        } else {
            before.push(seq![s.last()])
        }
    }
}

/// Splits the window `[from, to)` of `v` at every `sep`.
pub fn split_windows(v: &Vec<char>, from: usize, to: usize, sep: char) -> (ws: Vec<(usize, usize)>)
    requires
        from <= to <= v.len(),
    ensures
        ws.len() >= 1,
        windows_within(ws@, from as int, to as int),
        windows_text(v@, ws@) == split_on(v@.subrange(from as int, to as int), sep),
{
    let mut ws: Vec<(usize, usize)> = Vec::new();
    let mut start = from;
    let mut i = from;
    proof {
        assert(v@.subrange(from as int, from as int) =~= Seq::<char>::empty());
        assert(windows_text(v@, ws@).push(v@.subrange(start as int, i as int)) =~= seq![
            Seq::<char>::empty(),
        ]);
    }
    while i < to
        invariant
            from <= start <= i <= to <= v.len(),
            windows_within(ws@, from as int, to as int),
            split_on(v@.subrange(from as int, i as int), sep) == windows_text(v@, ws@).push(
                v@.subrange(start as int, i as int),
            ),
        decreases to - i,
    {
        let ghost cur = v@.subrange(from as int, i + 1);
        let ghost open_piece = v@.subrange(start as int, i as int);
        let ghost closed = windows_text(v@, ws@);
        proof {
            assert(cur.drop_last() =~= v@.subrange(from as int, i as int));
            assert(cur.last() == v@[i as int]);
            assert(closed.push(open_piece).drop_last() =~= closed);
        }
        if v[i] == sep {
            ws.push((start, i));
            start = i + 1;
            proof {
                assert(windows_text(v@, ws@) =~= closed.push(open_piece));
                assert(v@.subrange(start as int, i + 1) =~= Seq::<char>::empty());
            }
        } else {
            proof {
                assert(open_piece.push(v@[i as int]) =~= v@.subrange(start as int, i + 1));
            }
        }
        i = i + 1;
    }
    ws.push((start, to));
    proof {
        assert(windows_text(v@, ws@) =~= windows_text(v@, ws@.drop_last()).push(
            v@.subrange(start as int, to as int),
        ));
    }
    ws
}

/// The windows of the white-space separated words inside `[from, to)`.
pub fn word_windows(v: &Vec<char>, from: usize, to: usize) -> (ws: Vec<(usize, usize)>)
    requires
        from <= to <= v.len(),
    ensures
        windows_within(ws@, from as int, to as int),
        windows_text(v@, ws@) == words(v@.subrange(from as int, to as int)),
{
    let mut ws: Vec<(usize, usize)> = Vec::new();
    let mut i = from;
    proof {
        assert(windows_text(v@, ws@) =~= Seq::<Seq<char>>::empty());
    }
    while i < to
        invariant
            from <= i <= to <= v.len(),
            windows_within(ws@, from as int, to as int),
            windows_text(v@, ws@) == words(v@.subrange(from as int, i as int)),
            i > from && !is_space(v@[i - 1]) ==> ws.len() > 0 && ws@.last().1 == i,
        decreases to - i,
    {
        let ghost cur = v@.subrange(from as int, i + 1);
        let ghost before = windows_text(v@, ws@);
        let ghost old_ws = ws@;
        proof {
            assert(cur.drop_last() =~= v@.subrange(from as int, i as int));
            assert(cur.last() == v@[i as int]);
            if i > from {
                assert(cur[cur.len() - 2] == v@[i - 1]);
            }
        }
        if !is_whitespace(v[i]) {
            if i > from && !is_whitespace(v[i - 1]) {
                let last = ws.len() - 1;
                let w = ws[last];
                ws.set(last, (w.0, i + 1));
                proof {
                    assert(window_text(v@, (w.0, (i + 1) as usize)) =~= before.last().push(
                        v@[i as int],
                    ));
                    assert(windows_text(v@, ws@) =~= before.drop_last().push(
                        before.last().push(v@[i as int]),
                    ));
                }
            } else {
                ws.push((i, i + 1));
                proof {
                    assert(window_text(v@, (i, (i + 1) as usize)) =~= seq![v@[i as int]]);
                    assert(windows_text(v@, ws@) =~= before.push(seq![v@[i as int]]));
                }
            }
        }
        i = i + 1;
    }
    ws
}

/// A line without the carriage return that may end it.
pub open spec fn without_return(piece: Seq<char>) -> Seq<char> {
    if piece.len() > 0 && piece.last() == '\r' {
        piece.drop_last()
    } else {
        piece
    }
}

/// The lines of a text. A line ends at a line feed, or at a carriage return
/// followed by a line feed; what follows the last line feed is a line of
/// its own unless it is empty.
pub open spec fn lines_of(s: Seq<char>) -> Seq<Seq<char>> {
    let pieces = split_on(s, '\n');
    let ended = Seq::new((pieces.len() - 1) as nat, |i: int| without_return(pieces[i]));
    if pieces.last().len() == 0 {
        ended
    } else {
        ended.push(pieces.last())
    }
}

/// The windows of the lines inside `[from, to)`.
pub fn line_windows(v: &Vec<char>, from: usize, to: usize) -> (ws: Vec<(usize, usize)>)
    requires
        from <= to <= v.len(),
    ensures
        windows_within(ws@, from as int, to as int),
        windows_text(v@, ws@) == lines_of(v@.subrange(from as int, to as int)),
{
    let pieces = split_windows(v, from, to, '\n');
    let ghost texts = windows_text(v@, pieces@);
    let mut ws: Vec<(usize, usize)> = Vec::new();
    let mut k: usize = 0;
    while k + 1 < pieces.len()
        invariant
            k + 1 <= pieces.len(),
            texts == windows_text(v@, pieces@),
            windows_within(pieces@, from as int, to as int),
            windows_within(ws@, from as int, to as int),
            to <= v.len(),
            ws@.len() == k,
            forall|i: int|
                0 <= i < k ==> window_text(v@, #[trigger] ws@[i]) == without_return(texts[i]),
        decreases pieces.len() - k,
    {
        let w = pieces[k];
        proof {
            assert(texts[k as int] == window_text(v@, w));
        }
        if w.0 < w.1 && v[w.1 - 1] == '\r' {
            proof {
                assert(window_text(v@, w).last() == v@[w.1 - 1]);
                assert(window_text(v@, (w.0, (w.1 - 1) as usize)) =~= window_text(v@, w).drop_last());
            }
            ws.push((w.0, w.1 - 1));
        } else {
            proof {
                if w.0 < w.1 {
                    assert(window_text(v@, w).last() == v@[w.1 - 1]);
                }
            }
            ws.push(w);
        }
        k = k + 1;
    }
    let last = pieces[pieces.len() - 1];
    proof {
        assert(texts[pieces.len() - 1] == window_text(v@, last));
        assert(texts.last() == texts[pieces.len() - 1]);
    }
    if last.0 < last.1 {
        ws.push(last);
    }
    proof {
        assert(windows_text(v@, ws@) =~= lines_of(v@.subrange(from as int, to as int)));
    }
    ws
}

/// Whether `c` is one of the ten ASCII digits.
pub open spec fn is_digit(c: char) -> bool {
    '0' <= c <= '9'
}

/// Whether every character of `s` is an ASCII digit.
pub open spec fn all_digits(s: Seq<char>) -> bool {
    forall|i: int| 0 <= i < s.len() ==> is_digit(#[trigger] s[i])
}

/// The number that a run of decimal digits denotes.
pub open spec fn digits_value(s: Seq<char>) -> nat
    decreases s.len(),
{
    if s.len() == 0 {
        0
    } else {
        digits_value(s.drop_last()) * 10 + ((s.last() as u32 - '0' as u32) as nat)
    }
}

/// A decimal integer with an optional sign: `Some` of its value when `s` is
/// a sign (only `+` unless `signed`) followed by at least one digit and the
/// value lies in `[min, max]`.
pub open spec fn parse_decimal(s: Seq<char>, signed: bool, min: int, max: int) -> Option<int> {
    let has_sign = s.len() > 0 && (s[0] == '+' || (signed && s[0] == '-'));
    let negative = has_sign && s[0] == '-';
    let body = if has_sign {
        s.drop_first()
    } else {
        s
    };
    let value = if negative {
        -(digits_value(body) as int)
    } else {
        digits_value(body) as int
    };
    if body.len() > 0 && all_digits(body) && min <= value <= max {
        Some(value)
    } else {
        None
    }
}

pub proof fn lemma_digits_value_grows(s: Seq<char>, k: int)
    requires
        0 <= k <= s.len(),
        all_digits(s),
    ensures
        digits_value(s.take(k)) <= digits_value(s),
    decreases s.len() - k,
{
    if k < s.len() {
        let next = s.take(k + 1);
        assert(next.drop_last() =~= s.take(k));
        assert(is_digit(s[k]));
        assert(next.last() == s[k]);
        lemma_digits_value_grows(s, k + 1);
    } else {
        assert(s.take(k) =~= s);
    }
}

/// Reads the digits in `[from, to)`. `None` when there is none, when a
/// character is no digit, or when the value exceeds `limit`.
pub fn read_digits(v: &Vec<char>, from: usize, to: usize, limit: u64) -> (r: Option<u64>)
    requires
        from <= to <= v.len(),
    ensures
        r == (if from < to && all_digits(v@.subrange(from as int, to as int)) && digits_value(
            v@.subrange(from as int, to as int),
        ) <= limit {
            Some(digits_value(v@.subrange(from as int, to as int)) as u64)
        } else {
            None
        }),
{
    let ghost body = v@.subrange(from as int, to as int);
    if from == to {
        return None;
    }
    let mut acc: u64 = 0;
    let mut i = from;
    proof {
        assert(body.take(0) =~= Seq::<char>::empty());
    }
    while i < to
        invariant
            from <= i <= to <= v.len(),
            body == v@.subrange(from as int, to as int),
            all_digits(body.take(i - from)),
            acc == digits_value(body.take(i - from)),
            acc <= limit,
        decreases to - i,
    {
        let c = v[i];
        proof {
            assert(body[i - from] == c);
            assert(body.take(i - from + 1).drop_last() =~= body.take(i - from));
            assert(body.take(i - from + 1).last() == c);
        }
        if !('0' <= c && c <= '9') {
            return None;
        }
        let d: u64 = (c as u32 - '0' as u32) as u64;
        proof {
            assert forall|j: int| 0 <= j < body.take(i - from + 1).len() implies is_digit(
                #[trigger] body.take(i - from + 1)[j],
            ) by {
                if j < i - from {
                    assert(body.take(i - from + 1)[j] == body.take(i - from)[j]);
                }
            }
        }
        if limit < d || acc > (limit - d) / 10 {
            proof {
                assert(acc * 10 + d > limit);
                if all_digits(body) {
                    lemma_digits_value_grows(body, i - from + 1);
                }
            }
            return None;
        }
        acc = acc * 10 + d;
        i = i + 1;
    }
    proof {
        assert(body.take(to - from) =~= body);
    }
    Some(acc)
}


/// Reads an unsigned decimal number, with an optional `+` in front, from the
/// window `[from, to)`.
pub fn read_unsigned(v: &Vec<char>, from: usize, to: usize) -> (r: Option<usize>)
    requires
        from <= to <= v.len(),
    ensures
        match parse_decimal(v@.subrange(from as int, to as int), false, 0, usize::MAX as int) {
            Some(n) => r == Some(n as usize),
            None => r.is_none(),
        },
{
    let ghost text = v@.subrange(from as int, to as int);
    let start = if from < to && v[from] == '+' {
        from + 1
    } else {
        from
    };
    proof {
        if from < to {
            assert(text[0] == v@[from as int]);
        }
        if start > from {
            assert(text.drop_first() =~= v@.subrange(start as int, to as int));
        }
    }
    match read_digits(v, start, to, usize::MAX as u64) {
        Some(n) => Some(n as usize),
        None => None,
    }
}

/// Reads a signed decimal number, with an optional `+` or `-` in front, from
/// the window `[from, to)`.
pub fn read_signed(v: &Vec<char>, from: usize, to: usize) -> (r: Option<i64>)
    requires
        from <= to <= v.len(),
    ensures
        match parse_decimal(
            v@.subrange(from as int, to as int),
            true,
            i64::MIN as int,
            i64::MAX as int,
        ) {
            Some(n) => r == Some(n as i64),
            None => r.is_none(),
        },
{
    let ghost text = v@.subrange(from as int, to as int);
    let negative = from < to && v[from] == '-';
    let start = if from < to && (v[from] == '+' || v[from] == '-') {
        from + 1
    } else {
        from
    };
    proof {
        if from < to {
            assert(text[0] == v@[from as int]);
        }
        if start > from {
            assert(text.drop_first() =~= v@.subrange(start as int, to as int));
        }
    }
    if negative {
        match read_digits(v, start, to, 0x8000_0000_0000_0000u64) {
            Some(n) => {
                let wide: i128 = -(n as i128);
                Some(wide as i64)
            },
            None => None,
        }
    } else {
        match read_digits(v, start, to, 0x7fff_ffff_ffff_ffffu64) {
            Some(n) => Some(n as i64),
            None => None,
        }
    }
}

/// Number of times `mark` is repeated at the start of `s`.
pub open spec fn leading_marks(s: Seq<char>, mark: char) -> nat
    decreases s.len(),
{
    if s.len() > 0 && s[0] == mark {
        1 + leading_marks(s.drop_first(), mark)
    } else {
        0
    }
}

/// `s` without the run of `mark` at its start.
pub open spec fn without_leading(s: Seq<char>, mark: char) -> Seq<char> {
    s.skip(leading_marks(s, mark) as int)
}

/// Skips the run of `mark` at the start of the window `[from, to)`.
pub fn skip_marks(v: &Vec<char>, from: usize, to: usize, mark: char) -> (a: usize)
    requires
        from <= to <= v.len(),
    ensures
        from <= a <= to,
        v@.subrange(a as int, to as int) == without_leading(
            v@.subrange(from as int, to as int),
            mark,
        ),
{
    let ghost whole = v@.subrange(from as int, to as int);
    let mut a = from;
    while a < to && v[a] == mark
        invariant
            from <= a <= to <= v.len(),
            whole == v@.subrange(from as int, to as int),
            leading_marks(whole, mark) == (a - from) + leading_marks(
                v@.subrange(a as int, to as int),
                mark,
            ),
        decreases to - a,
    {
        proof {
            let cur = v@.subrange(a as int, to as int);
            assert(cur[0] == v@[a as int]);
            assert(cur.drop_first() =~= v@.subrange(a + 1, to as int));
        }
        a = a + 1;
    }
    proof {
        let cur = v@.subrange(a as int, to as int);
        if a < to {
            assert(cur[0] == v@[a as int]);
        }
        assert(leading_marks(cur, mark) == 0);
        assert(whole.skip(leading_marks(whole, mark) as int) =~= cur);
    }
    a
}

/// Whether `needle` occurs in `hay` at offset `at`.
pub open spec fn occurs_at(hay: Seq<char>, needle: Seq<char>, at: int) -> bool {
    &&& 0 <= at
    &&& at + needle.len() <= hay.len()
    &&& hay.subrange(at, at + needle.len()) == needle
}

/// Whether `needle` occurs somewhere in `hay`. The empty text occurs in
/// every text.
pub open spec fn contains_text(hay: Seq<char>, needle: Seq<char>) -> bool {
    exists|at: int| occurs_at(hay, needle, at)
}

/// Whether `needle` occurs in `hay` at offset `at`.
pub fn matches_at(hay: &Vec<char>, needle: &Vec<char>, at: usize) -> (r: bool)
    requires
        at + needle.len() <= hay.len(),
    ensures
        r == occurs_at(hay@, needle@, at as int),
{
    let mut k: usize = 0;
    while k < needle.len()
        invariant
            k <= needle.len(),
            at + needle.len() <= hay.len(),
            forall|j: int| 0 <= j < k ==> hay@[at + j] == needle@[j],
        decreases needle.len() - k,
    {
        if hay[at + k] != needle[k] {
            proof {
                assert(hay@.subrange(at as int, at + needle.len())[k as int] == hay@[at + k]);
            }
            return false;
        }
        k = k + 1;
    }
    proof {
        assert(hay@.subrange(at as int, at + needle.len()) =~= needle@);
    }
    true
}

/// Whether `needle` occurs somewhere in `hay`.
pub fn contains(hay: &Vec<char>, needle: &Vec<char>) -> (r: bool)
    ensures
        r == contains_text(hay@, needle@),
{
    if needle.len() > hay.len() {
        return false;
    }
    let last = hay.len() - needle.len();
    let mut at: usize = 0;
    while at < last
        invariant
            at <= last,
            last == hay.len() - needle.len(),
            needle.len() <= hay.len(),
            forall|j: int| 0 <= j < at ==> !occurs_at(hay@, needle@, j),
        decreases last - at,
    {
        if matches_at(hay, needle, at) {
            return true;
        }
        at = at + 1;
    }
    matches_at(hay, needle, last)
}

/// The first place at or after `at` where `needle` occurs in `hay`, or -1.
pub open spec fn occurrence_from(hay: Seq<char>, needle: Seq<char>, at: int) -> int
    decreases hay.len() + 1 - at,
{
    if at < 0 || at + needle.len() > hay.len() {
        -1
    } else if occurs_at(hay, needle, at) {
        at
    } else {
        occurrence_from(hay, needle, at + 1)
    }
}

/// The first place where `needle` occurs in `hay`, or -1 if it occurs
/// nowhere.
pub open spec fn first_occurrence(hay: Seq<char>, needle: Seq<char>) -> int {
    occurrence_from(hay, needle, 0)
}

/// The first place where `needle` occurs in the window `[from, to)` of
/// `hay`, counted from the start of the buffer.
pub fn find_text(hay: &Vec<char>, from: usize, to: usize, needle: &Vec<char>) -> (r: Option<
    usize,
>)
    requires
        from <= to <= hay.len(),
    ensures
        match r {
            Some(at) => from <= at && at + needle.len() <= to && at - from == first_occurrence(
                hay@.subrange(from as int, to as int),
                needle@,
            ),
            None => first_occurrence(hay@.subrange(from as int, to as int), needle@) == -1,
        },
{
    let ghost window = hay@.subrange(from as int, to as int);
    if needle.len() > to - from {
        return None;
    }
    let last = to - needle.len();
    let mut at = from;
    while at <= last
        invariant
            from <= at <= last + 1,
            last == to - needle.len(),
            from <= to <= hay.len(),
            needle.len() <= to - from,
            window == hay@.subrange(from as int, to as int),
            first_occurrence(window, needle@) == occurrence_from(window, needle@, at - from),
        decreases last + 1 - at,
    {
        let found = matches_at(hay, needle, at);
        proof {
            assert(window.subrange(at - from, at - from + needle.len()) =~= hay@.subrange(
                at as int,
                at + needle.len(),
            ));
        }
        if found {
            return Some(at);
        }
        if at == last {
            proof {
                assert(occurrence_from(window, needle@, at - from + 1) == -1);
            }
            return None;
        }
        at = at + 1;
    }
    None
}

/// The characters `[from, to)` of `s` as a string of their own.
pub fn substring(s: &str, from: usize, to: usize) -> (r: String)
    requires
        from <= to <= s@.len(),
    ensures
        r@ == s@.subrange(from as int, to as int),
{
    s.substring_char(from, to).to_owned()
}


/// The lower-case form of a text, as `str::to_lowercase` computes it from
/// the Unicode case tables.
pub uninterp spec fn lowercase_of(s: Seq<char>) -> Seq<char>;

/// The upper-case form of a text, as `str::to_uppercase` computes it from
/// the Unicode case tables.
pub uninterp spec fn uppercase_of(s: Seq<char>) -> Seq<char>;

/// Calls `str::to_lowercase`. The standard library documents the result as
/// the lower-case equivalent of the text; it depends on the text alone.
#[verifier::external_body]
pub(crate) fn to_lowercase(s: &str) -> (r: String)
    ensures
        r@ == lowercase_of(s@),
{
    s.to_lowercase()
}

/// Calls `str::to_uppercase`. The standard library documents the result as
/// the upper-case equivalent of the text; it depends on the text alone.
#[verifier::external_body]
pub(crate) fn to_uppercase(s: &str) -> (r: String)
    ensures
        r@ == uppercase_of(s@),
{
    s.to_uppercase()
}

} // verus!
