//! Character-level helpers on message text: splitting on spaces, joining,
//! and case folding.

use vstd::prelude::*;

verus! {

/// What `str::to_lowercase` makes of a string.
pub uninterp spec fn lower_of(s: Seq<char>) -> Seq<char>;

/// Relies on `str::to_lowercase`: the result depends on the characters
/// alone, and the empty string stays empty.
#[verifier::external_body]
pub(crate) fn lowercase(s: &str) -> (r: String)
    ensures
        r@ == lower_of(s@),
        s@.len() == 0 ==> r@.len() == 0,
{
    s.to_lowercase()
}

pub open spec fn views_of(v: Seq<String>) -> Seq<Seq<char>> {
    v.map_values(|s: String| s@)
}

/// The segments of `s` between single occurrences of `sep`, empty
/// segments kept (as `str::split` gives them).
pub open spec fn split_on(s: Seq<char>, sep: char) -> Seq<Seq<char>>
    decreases s.len(),
{
    if s.len() == 0 {
        seq![Seq::<char>::empty()]
    } else {
        let prev = split_on(s.drop_last(), sep);
        if s.last() == sep {
            prev.push(Seq::<char>::empty())
        } else {
            prev.update(prev.len() - 1, prev.last().push(s.last()))
        }
    }
}

/// The segments of `s` between single spaces, empty segments kept.
pub open spec fn split_spaces(s: Seq<char>) -> Seq<Seq<char>> {
    split_on(s, ' ')
}

pub proof fn lemma_split_nonempty(s: Seq<char>, sep: char)
    ensures
        split_on(s, sep).len() >= 1,
    decreases s.len(),
{
    if s.len() > 0 {
        lemma_split_nonempty(s.drop_last(), sep);
    }
}

/// Splits `s` on single occurrences of `sep`, keeping empty segments.
pub fn split_on_char(s: &str, sep: char) -> (r: Vec<String>)
    ensures
        views_of(r@) == split_on(s@, sep),
        r@.len() >= 1,
{
    let cs = chars_of(s);
    let n = cs.len();
    let mut parts: Vec<String> = Vec::new();
    let mut part: Vec<char> = Vec::new();
    let mut i: usize = 0;
    proof {
        assert(views_of(parts@) =~= Seq::<Seq<char>>::empty());
        assert(s@.take(0) =~= Seq::<char>::empty());
        assert(seq![Seq::<char>::empty()] =~= Seq::<Seq<char>>::empty().push(Seq::<char>::empty()));
    }
    while i < n
        invariant
            n == s@.len(),
            cs@ == s@,
            i <= n,
            views_of(parts@).push(part@) == split_on(s@.take(i as int), sep),
        decreases n - i,
    {
        let c = cs[i];
        proof {
            assert(s@.take(i as int + 1).drop_last() =~= s@.take(i as int));
            assert(s@.take(i as int + 1).last() == c);
            lemma_split_nonempty(s@.take(i as int), sep);
        }
        if c == sep {
            let done = string_of(part.as_slice());
            let ghost before = parts@;
            parts.push(done);
            part = Vec::new();
            proof {
                assert(views_of(parts@) =~= views_of(before).push(done@));
            }
        } else {
            let ghost before = part@;
            part.push(c);
            proof {
                assert(views_of(parts@).push(part@) =~= views_of(parts@).push(before).update(
                    views_of(parts@).len() as int,
                    before.push(c),
                ));
            }
        }
        i = i + 1;
    }
    proof {
        assert(s@.take(n as int) =~= s@);
    }
    let last = string_of(part.as_slice());
    let ghost before = parts@;
    parts.push(last);
    proof {
        assert(views_of(parts@) =~= views_of(before).push(last@));
    }
    parts
}

/// Splits `s` on single spaces, keeping empty segments.
pub fn split_on_spaces(s: &str) -> (r: Vec<String>)
    ensures
        views_of(r@) == split_spaces(s@),
        r@.len() >= 1,
{
    split_on_char(s, ' ')
}

} // verus!

verus! {

/// The characters of `s`, in order.
pub fn chars_of(s: &str) -> (r: Vec<char>)
    ensures
        r@ == s@,
{
    let mut v: Vec<char> = Vec::new();
    for c in it: s.chars()
        invariant
            v@ == it.seq().take(it.index() as int),
    {
        v.push(c);
    }
    v
}

/// Relies on `String`'s `FromIterator<char>`: the string made of these
/// characters, in order.
#[verifier::external_body]
pub(crate) fn string_of(v: &[char]) -> (r: String)
    ensures
        r@ == v@,
{
    v.iter().collect()
}

/// `parts`, with `sep` between each two of them.
pub open spec fn join_with(parts: Seq<Seq<char>>, sep: Seq<char>) -> Seq<char>
    decreases parts.len(),
{
    if parts.len() == 0 {
        Seq::empty()
    } else if parts.len() == 1 {
        parts[0]
    } else {
        join_with(parts.drop_last(), sep) + sep + parts.last()
    }
}

/// Joins `parts` with `sep` between each two of them.
pub fn join(parts: &Vec<String>, sep: &str) -> (r: String)
    ensures
        r@ == join_with(views_of(parts@), sep@),
{
    let n = parts.len();
    let mut out = String::new();
    let mut i: usize = 0;
    while i < n
        invariant
            n == parts@.len(),
            i <= n,
            out@ == join_with(views_of(parts@).take(i as int), sep@),
        decreases n - i,
    {
        proof {
            let vs = views_of(parts@);
            assert(vs.take(i as int + 1).drop_last() =~= vs.take(i as int));
            assert(vs.take(i as int + 1).last() == parts@[i as int]@);
            if i == 0 {
                assert(vs.take(0) =~= Seq::<Seq<char>>::empty());
            }
        }
        if i > 0 {
            out.append(sep);
        }
        out.append(parts[i].as_str());
        i = i + 1;
    }
    proof {
        assert(views_of(parts@).take(n as int) =~= views_of(parts@));
    }
    out
}

/// `s` on one line: each line feed becomes `|`, carriage returns go.
pub open spec fn one_line(s: Seq<char>) -> Seq<char>
    decreases s.len(),
{
    if s.len() == 0 {
        Seq::empty()
    } else {
        let prev = one_line(s.drop_last());
        if s.last() == '\n' {
            prev.push('|')
        } else if s.last() == '\r' {
            prev
        } else {
            prev.push(s.last())
        }
    }
}

/// Puts `s` on one line: each line feed becomes `|`, carriage returns go.
pub fn to_one_line(s: &str) -> (r: String)
    ensures
        r@ == one_line(s@),
{
    let cs = chars_of(s);
    let n = cs.len();
    let mut out: Vec<char> = Vec::new();
    let mut i: usize = 0;
    while i < n
        invariant
            n == cs@.len(),
            cs@ == s@,
            i <= n,
            out@ == one_line(s@.take(i as int)),
        decreases n - i,
    {
        proof {
            assert(s@.take(i as int + 1).drop_last() =~= s@.take(i as int));
            assert(s@.take(i as int + 1).last() == s@[i as int]);
        }
        let c = cs[i];
        if c == '\n' {
            out.push('|');
        } else if c != '\r' {
            out.push(c);
        }
        i = i + 1;
    }
    proof {
        assert(s@.take(n as int) =~= s@);
    }
    string_of(out.as_slice())
}

/// The number of bytes that `c` takes in UTF-8 (as `char::len_utf8`
/// documents it).
pub open spec fn utf8_len(c: char) -> nat {
    if (c as u32) < 0x80 {
        1
    } else if (c as u32) < 0x800 {
        2
    } else if (c as u32) < 0x10000 {
        3
    } else {
        4
    }
}

/// The longest run of whole characters at the start of `s` that takes at
/// most `n` bytes in UTF-8.
pub open spec fn byte_prefix(s: Seq<char>, n: int) -> Seq<char>
    decreases s.len(),
{
    if s.len() == 0 || utf8_len(s[0]) > n {
        Seq::empty()
    } else {
        seq![s[0]] + byte_prefix(s.drop_first(), n - utf8_len(s[0]))
    }
}

fn char_utf8_len(c: char) -> (r: usize)
    ensures
        r == utf8_len(c),
{
    let code = c as u32;
    if code < 0x80 {
        1
    } else if code < 0x800 {
        2
    } else if code < 0x10000 {
        3
    } else {
        4
    }
}

/// Cuts `s` to at most `n` bytes, at a character boundary.
pub fn truncate_bytes(s: &str, n: usize) -> (r: String)
    ensures
        r@ == byte_prefix(s@, n as int),
{
    let cs = chars_of(s);
    let len = cs.len();
    let mut out: Vec<char> = Vec::new();
    let mut budget: usize = n;
    let mut i: usize = 0;
    proof {
        assert(s@.skip(0) =~= s@);
        assert(s@.take(0) + byte_prefix(s@, n as int) =~= byte_prefix(s@, n as int));
    }
    while i < len
        invariant
            len == s@.len(),
            cs@ == s@,
            i <= len,
            out@ == s@.take(i as int),
            byte_prefix(s@, n as int) == s@.take(i as int) + byte_prefix(s@.skip(i as int), budget as int),
        decreases len - i,
    {
        let c = cs[i];
        let w = char_utf8_len(c);
        if w > budget {
            proof {
                assert(s@.skip(i as int)[0] == c);
                assert(byte_prefix(s@.skip(i as int), budget as int) =~= Seq::<char>::empty());
                assert(out@ =~= s@.take(i as int));
                assert(s@.take(i as int) + Seq::<char>::empty() =~= s@.take(i as int));
            }
            return string_of(out.as_slice());
        }
        proof {
            let rest = s@.skip(i as int);
            assert(rest[0] == c);
            assert(rest.drop_first() =~= s@.skip(i as int + 1));
            assert(s@.take(i as int + 1) =~= s@.take(i as int) + seq![c]);
            assert(s@.take(i as int) + (seq![c] + byte_prefix(s@.skip(i as int + 1), (budget - w) as int))
                =~= s@.take(i as int + 1) + byte_prefix(s@.skip(i as int + 1), (budget - w) as int));
        }
        out.push(c);
        budget = budget - w;
        i = i + 1;
    }
    proof {
        assert(s@.skip(len as int) =~= Seq::<char>::empty());
        assert(s@.take(len as int) + Seq::<char>::empty() =~= s@.take(len as int));
    }
    string_of(out.as_slice())
}

/// The value of a run of decimal digits.
pub open spec fn digits_value(d: Seq<char>) -> int
    decreases d.len(),
{
    if d.len() == 0 {
        0
    } else {
        digits_value(d.drop_last()) * 10 + (d.last() as int - '0' as int)
    }
}

pub open spec fn is_digit(c: char) -> bool {
    '0' <= c <= '9'
}

/// `s` without its leading sign, if any; a `-` counts only where
/// `signed`.
pub open spec fn unsigned_part(s: Seq<char>, signed: bool) -> Seq<char> {
    if s.len() > 0 && (s[0] == '+' || (signed && s[0] == '-')) {
        s.drop_first()
    } else {
        s
    }
}

/// The integer that `s` writes in decimal, with an optional `+` (or `-`,
/// where `signed`), when it lies in `lo..=hi`: the syntax of `from_str`
/// on Rust's integer types.
pub open spec fn int_text_value(s: Seq<char>, signed: bool, lo: int, hi: int) -> Option<int> {
    let neg = signed && s.len() > 0 && s[0] == '-';
    let d = unsigned_part(s, signed);
    let v = if neg {
        -digits_value(d)
    } else {
        digits_value(d)
    };
    if d.len() > 0 && (forall|i: int| 0 <= i < d.len() ==> is_digit(#[trigger] d[i])) && lo <= v
        <= hi {
        Some(v)
    } else {
        None
    }
}

/// What `i32::from_str` reads from `s`.
pub open spec fn i32_text_value(s: Seq<char>) -> Option<int> {
    int_text_value(s, true, i32::MIN as int, i32::MAX as int)
}

/// What `u32::from_str` reads from `s`.
pub open spec fn u32_text_value(s: Seq<char>) -> Option<int> {
    int_text_value(s, false, 0, u32::MAX as int)
}

/// What `i64::from_str` reads from `s`.
pub open spec fn i64_text_value(s: Seq<char>) -> Option<int> {
    int_text_value(s, true, i64::MIN as int, i64::MAX as int)
}

proof fn lemma_digits_value_nonneg(d: Seq<char>)
    requires
        forall|i: int| 0 <= i < d.len() ==> is_digit(#[trigger] d[i]),
    ensures
        digits_value(d) >= 0,
    decreases d.len(),
{
    if d.len() > 0 {
        assert(is_digit(d[d.len() - 1]));
        lemma_digits_value_nonneg(d.drop_last());
    }
}

proof fn lemma_digits_value_grows(d: Seq<char>, k: int)
    requires
        0 <= k <= d.len(),
        forall|i: int| 0 <= i < d.len() ==> is_digit(#[trigger] d[i]),
    ensures
        digits_value(d.take(k)) <= digits_value(d),
    decreases d.len() - k,
{
    if k < d.len() {
        let e = d.take(k + 1);
        assert(e.drop_last() =~= d.take(k));
        assert(is_digit(e.last()));
        lemma_digits_value_nonneg(d.take(k));
        lemma_digits_value_grows(d, k + 1);
    } else {
        assert(d.take(k) =~= d);
    }
}

/// The largest magnitude `parse_integer` reads before it gives up.
pub const MAGNITUDE_LIMIT: i128 = 18446744073709551616;

/// Reads `s` as an integer in `lo..=hi` written in decimal, with an
/// optional `+` (or `-`, where `signed`).
pub fn parse_integer(s: &str, signed: bool, lo: i128, hi: i128) -> (r: Option<i128>)
    requires
        -MAGNITUDE_LIMIT <= lo,
        hi <= MAGNITUDE_LIMIT,
    ensures
        r is Some <==> int_text_value(s@, signed, lo as int, hi as int) is Some,
        r matches Some(v) ==> int_text_value(s@, signed, lo as int, hi as int) == Some(v as int),
{
    let cs = chars_of(s);
    let n = cs.len();
    let neg = signed && n > 0 && cs[0] == '-';
    let start: usize = if n > 0 && (cs[0] == '+' || (signed && cs[0] == '-')) {
        1
    } else {
        0
    };
    let ghost d = unsigned_part(s@, signed);
    assert(d =~= s@.subrange(start as int, n as int));
    if start >= n {
        return None;
    }
    let mut value: i128 = 0;
    let mut i: usize = start;
    while i < n
        invariant
            cs@ == s@,
            n == s@.len(),
            start <= i <= n,
            d == unsigned_part(s@, signed),
            neg == (signed && s@.len() > 0 && s@[0] == '-'),
            d == s@.subrange(start as int, n as int),
            forall|k: int| 0 <= k < i - start ==> is_digit(#[trigger] d[k]),
            value as int == digits_value(d.take(i - start)),
            0 <= value <= MAGNITUDE_LIMIT,
            -MAGNITUDE_LIMIT <= lo,
            hi <= MAGNITUDE_LIMIT,
        decreases n - i,
    {
        let c = cs[i];
        if !('0' <= c && c <= '9') {
            assert(!is_digit(d[i - start]));
            return None;
        }
        let ghost j = i - start;
        proof {
            assert(d.take(j + 1).drop_last() =~= d.take(j));
            assert(d.take(j + 1).last() == c);
        }
        let digit = (c as u32 - '0' as u32) as i128;
        value = value * 10 + digit;
        i = i + 1;
        if value > MAGNITUDE_LIMIT {
            let ghost rest_ok = forall|k: int| 0 <= k < d.len() ==> is_digit(#[trigger] d[k]);
            proof {
                if rest_ok {
                    lemma_digits_value_grows(d, i - start);
                }
            }
            return None;
        }
    }
    proof {
        assert(d.take(n - start) =~= d);
    }
    let v = if neg {
        0 - value
    } else {
        value
    };
    if lo <= v && v <= hi {
        Some(v)
    } else {
        None
    }
}

/// Reads `s` as an `i32`, as `i32::from_str` does.
pub fn parse_i32(s: &str) -> (r: Option<i32>)
    ensures
        r is Some <==> i32_text_value(s@) is Some,
        r matches Some(v) ==> i32_text_value(s@) == Some(v as int),
{
    match parse_integer(s, true, i32::MIN as i128, i32::MAX as i128) {
        Some(v) => Some(v as i32),
        None => None,
    }
}

/// Reads `s` as a `u32`, as `u32::from_str` does.
pub fn parse_u32(s: &str) -> (r: Option<u32>)
    ensures
        r is Some <==> u32_text_value(s@) is Some,
        r matches Some(v) ==> u32_text_value(s@) == Some(v as int),
{
    match parse_integer(s, false, 0, u32::MAX as i128) {
        Some(v) => Some(v as u32),
        None => None,
    }
}

/// Reads `s` as an `i64`, as `i64::from_str` does.
pub fn parse_i64(s: &str) -> (r: Option<i64>)
    ensures
        r is Some <==> i64_text_value(s@) is Some,
        r matches Some(v) ==> i64_text_value(s@) == Some(v as int),
{
    match parse_integer(s, true, i64::MIN as i128, i64::MAX as i128) {
        Some(v) => Some(v as i64),
        None => None,
    }
}

/// The decimal text of a digit.
pub open spec fn digit_text(d: nat) -> Seq<char> {
    seq![('0' as int + d) as char]
}

/// The decimal text of `n`, without leading zeros.
pub open spec fn decimal(n: nat) -> Seq<char>
    decreases n,
{
    if n < 10 {
        digit_text(n)
    } else {
        decimal(n / 10) + digit_text(n % 10)
    }
}

/// Writes `n` in decimal.
pub fn decimal_text(n: u64) -> (r: String)
    ensures
        r@ == decimal(n as nat),
{
    let mut digits: Vec<char> = Vec::new();
    let mut m: u64 = n;
    while m >= 10
        invariant
            decimal(n as nat) == decimal(m as nat) + digits@.reverse(),
        decreases m,
    {
        let d = m % 10;
        let c = ((d + 48) as u8) as char;
        proof {
            assert(c == ('0' as int + d) as char);
            assert(decimal(m as nat) == decimal((m / 10) as nat) + digit_text((m % 10) as nat));
            assert(digits@.push(c).reverse() =~= seq![c] + digits@.reverse());
        }
        digits.push(c);
        m = m / 10;
    }
    let c = ((m + 48) as u8) as char;
    proof {
        assert(c == ('0' as int + m) as char);
        assert(digits@.push(c).reverse() =~= seq![c] + digits@.reverse());
    }
    digits.push(c);
    let mut out: Vec<char> = Vec::new();
    let k = digits.len();
    let mut i: usize = 0;
    while i < k
        invariant
            k == digits@.len(),
            i <= k,
            out@ == digits@.reverse().take(i as int),
        decreases k - i,
    {
        out.push(digits[k - 1 - i]);
        proof {
            assert(out@ =~= digits@.reverse().take(i as int + 1));
        }
        i = i + 1;
    }
    proof {
        assert(digits@.reverse().take(k as int) =~= digits@.reverse());
        assert(decimal(n as nat) =~= digits@.reverse());
    }
    string_of(out.as_slice())
}

/// Whether `a` and `b` hold the same characters.
pub fn text_eq(a: &str, b: &str) -> (r: bool)
    ensures
        r == (a@ == b@),
{
    a.to_owned() == b.to_owned()
}

/// The number of ASCII digits in `s`.
pub open spec fn digit_count(s: Seq<char>) -> nat
    decreases s.len(),
{
    if s.len() == 0 {
        0
    } else {
        digit_count(s.drop_last()) + if is_digit(s.last()) {
            1nat
        } else {
            0nat
        }
    }
}

/// Counts the ASCII digits in `s`.
pub fn count_digits(s: &str) -> (r: usize)
    ensures
        r == digit_count(s@),
{
    let cs = chars_of(s);
    let n = cs.len();
    let mut count: usize = 0;
    let mut i: usize = 0;
    while i < n
        invariant
            n == s@.len(),
            cs@ == s@,
            i <= n,
            count == digit_count(s@.take(i as int)),
            count <= i,
        decreases n - i,
    {
        proof {
            assert(s@.take(i as int + 1).drop_last() =~= s@.take(i as int));
            assert(s@.take(i as int + 1).last() == s@[i as int]);
        }
        if '0' <= cs[i] && cs[i] <= '9' {
            count = count + 1;
        }
        i = i + 1;
    }
    proof {
        assert(s@.take(n as int) =~= s@);
    }
    count
}

} // verus!
