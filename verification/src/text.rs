//! Character-level helpers shared by the parsers: the chars of a string,
//! building strings, decimal numbers, substring search and trimming.
use vstd::prelude::*;

verus! {

// ---------------------------------------------------------------------------
// Building and reading strings
// ---------------------------------------------------------------------------

/// What lossy UTF-8 decoding (`String::from_utf8_lossy`) makes of `bytes`.
pub uninterp spec fn utf8_lossy(bytes: Seq<u8>) -> Seq<char>;

/// Decodes bytes as UTF-8, replacing invalid sequences (`String::from_utf8_lossy`).
/// Valid UTF-8 comes back unchanged, as std's documentation states; what the
/// replacement does to invalid input is only named, not stated.
#[verifier::external_body]
pub(crate) fn lossy_string(bytes: &[u8]) -> (s: String)
    ensures
        s@ == utf8_lossy(bytes@),
        vstd::utf8::valid_utf8(bytes@) ==> s@ == vstd::utf8::decode_utf8(bytes@),
{
    String::from_utf8_lossy(bytes).to_string()
}

/// Appends one char to a `String` (std's `String::push`).
#[verifier::external_body]
pub(crate) fn push_char(s: &mut String, c: char)
    ensures
        final(s)@ == old(s)@.push(c),
{
    s.push(c);
}

/// The chars of `s`, in order.
pub fn chars_of(s: &str) -> (v: Vec<char>)
    ensures
        v@ == s@,
{
    let mut v: Vec<char> = Vec::new();
    for c in it: s.chars()
        invariant
            v@ == it.seq().take(it.index() as int),
            it.seq() == s@,
    {
        v.push(c);
    }
    v
}

/// A `String` holding exactly the chars of `v`.
pub fn string_of(v: &[char]) -> (s: String)
    ensures
        s@ == v@,
{
    let mut s = String::new();
    let mut i: usize = 0;
    while i < v.len()
        invariant
            i <= v.len(),
            s@ == v@.take(i as int),
        decreases v.len() - i,
    {
        push_char(&mut s, v[i]);
        assert(v@.take(i as int).push(v@[i as int]) == v@.take(i + 1));
        i += 1;
    }
    assert(v@.take(v@.len() as int) == v@);
    s
}

/// Whether two char sequences are equal.
pub fn chars_eq(a: &[char], b: &[char]) -> (r: bool)
    ensures
        r == (a@ == b@),
{
    if a.len() != b.len() {
        return false;
    }
    let mut i: usize = 0;
    while i < a.len()
        invariant
            i <= a.len(),
            a.len() == b.len(),
            forall|j: int| 0 <= j < i ==> a@[j] == b@[j],
        decreases a.len() - i,
    {
        if a[i] != b[i] {
            return false;
        }
        i += 1;
    }
    assert(a@ =~= b@);
    true
}

/// Whether two strings hold the same chars.
pub fn str_eq(a: &str, b: &str) -> (r: bool)
    ensures
        r == (a@ == b@),
{
    let x = chars_of(a);
    let y = chars_of(b);
    chars_eq(x.as_slice(), y.as_slice())
}

// ---------------------------------------------------------------------------
// Decimal numbers
// ---------------------------------------------------------------------------

pub open spec fn is_digit(c: char) -> bool {
    '0' <= c && c <= '9'
}

pub open spec fn digit_value(c: char) -> int {
    (c as int) - ('0' as int)
}

pub open spec fn all_digits(s: Seq<char>) -> bool {
    forall|i: int| 0 <= i < s.len() ==> is_digit(#[trigger] s[i])
}

/// The number written by a run of decimal digits (most significant first).
pub open spec fn digits_value(s: Seq<char>) -> nat
    decreases s.len(),
{
    if s.len() == 0 {
        0
    } else {
        (digits_value(s.drop_last()) * 10 + digit_value(s.last())) as nat
    }
}

/// What `str::parse::<u64>` gives: an optional `+`, then one or more decimal
/// digits whose value fits in a `u64`; anything else is refused.
pub open spec fn parse_u64_spec(s: Seq<char>) -> Option<u64> {
    let d = if s.len() > 0 && s[0] == '+' { s.drop_first() } else { s };
    if d.len() > 0 && all_digits(d) && digits_value(d) <= u64::MAX {
        Some(digits_value(d) as u64)
    } else {
        None
    }
}

/// A longer run of digits never writes a smaller number.
pub proof fn lemma_digits_value_prefix(s: Seq<char>, k: int)
    requires
        0 <= k <= s.len(),
        all_digits(s),
    ensures
        digits_value(s.take(k)) <= digits_value(s),
    decreases s.len(),
{
    if k < s.len() {
        assert(s.drop_last().take(k) == s.take(k));
        assert(all_digits(s.drop_last()));
        lemma_digits_value_prefix(s.drop_last(), k);
        assert(is_digit(s[s.len() - 1]));
    } else {
        assert(s.take(k) == s);
    }
}

/// Parses a decimal `u64` exactly as `str::parse::<u64>` does.
pub fn parse_u64(s: &str) -> (r: Option<u64>)
    ensures
        r == parse_u64_spec(s@),
{
    let cs = chars_of(s);
    parse_u64_chars(cs.as_slice())
}

/// Parses a decimal `u64` from chars, as `str::parse::<u64>` does.
pub fn parse_u64_chars(cs: &[char]) -> (r: Option<u64>)
    ensures
        r == parse_u64_spec(cs@),
{
    let ghost s = cs@;
    let start: usize = if cs.len() > 0 && cs[0] == '+' { 1 } else { 0 };
    let ghost d = if s.len() > 0 && s[0] == '+' { s.drop_first() } else { s };
    assert(d == cs@.skip(start as int));
    if start >= cs.len() {
        return None;
    }
    let mut v: u64 = 0;
    let mut i: usize = start;
    while i < cs.len()
        invariant
            start <= i <= cs.len(),
            cs@ == s,
            d == (if s.len() > 0 && s[0] == '+' { s.drop_first() } else { s }),
            d == cs@.skip(start as int),
            all_digits(d.take(i - start)),
            v as nat == digits_value(d.take(i - start)),
        decreases cs.len() - i,
    {
        let c = cs[i];
        assert(d.take(i - start + 1).drop_last() == d.take(i - start));
        assert(d[i - start] == c);
        if !('0' <= c && c <= '9') {
            assert(!all_digits(d)) by {
                assert(!is_digit(d[i - start]));
            }
            return None;
        }
        let dv: u64 = (c as u32 - '0' as u32) as u64;
        assert(digits_value(d.take(i - start + 1)) == digits_value(d.take(i - start)) * 10 + dv);
        match v.checked_mul(10) {
            None => {
                proof {
                    assert(all_digits(d.take(i - start + 1)));
                    if all_digits(d) {
                        lemma_digits_value_prefix(d, i - start + 1);
                    }
                }
                return None;
            },
            Some(t) => match t.checked_add(dv) {
                None => {
                    proof {
                        assert(all_digits(d.take(i - start + 1)));
                        if all_digits(d) {
                            lemma_digits_value_prefix(d, i - start + 1);
                        }
                    }
                    return None;
                },
                Some(w) => {
                    v = w;
                },
            },
        }
        i += 1;
    }
    assert(d.take(i - start) == d);
    Some(v)
}

/// The decimal digit char for `d < 10`.
pub open spec fn digit_char(d: nat) -> char {
    if d == 0 { '0' } else if d == 1 { '1' } else if d == 2 { '2' } else if d == 3 { '3' }
    else if d == 4 { '4' } else if d == 5 { '5' } else if d == 6 { '6' } else if d == 7 { '7' }
    else if d == 8 { '8' } else { '9' }
}

/// The decimal form of `n`, without leading zeros (as `{}` formats it).
pub open spec fn decimal(n: nat) -> Seq<char>
    decreases n,
{
    if n < 10 {
        seq![digit_char(n)]
    } else {
        decimal(n / 10).push(digit_char(n % 10))
    }
}

/// The decimal form is a nonempty run of digits that writes `n`.
pub proof fn lemma_decimal_digits(n: nat)
    ensures
        decimal(n).len() > 0,
        all_digits(decimal(n)),
        digits_value(decimal(n)) == n,
    decreases n,
{
    if n < 10 {
        assert(digit_value(digit_char(n)) == n);
        assert(decimal(n).drop_last() =~= Seq::<char>::empty());
        assert(digits_value(Seq::<char>::empty()) == 0);
    } else {
        lemma_decimal_digits(n / 10);
        assert(digit_value(digit_char(n % 10)) == n % 10);
        let s = decimal(n);
        assert(s.drop_last() == decimal(n / 10));
        assert(s.last() == digit_char(n % 10));
        assert((n / 10) * 10 + n % 10 == n);
        assert forall|i: int| 0 <= i < s.len() implies is_digit(#[trigger] s[i]) by {
            if i < s.len() - 1 {
                assert(s[i] == decimal(n / 10)[i]);
            }
        }
    }
}

/// The char for the decimal digit `d` (`d < 10`).
fn digit_to_char(d: u64) -> (c: char)
    requires
        d < 10,
    ensures
        c == digit_char(d as nat),
{
    if d == 0 { '0' } else if d == 1 { '1' } else if d == 2 { '2' } else if d == 3 { '3' }
    else if d == 4 { '4' } else if d == 5 { '5' } else if d == 6 { '6' } else if d == 7 { '7' }
    else if d == 8 { '8' } else { '9' }
}

/// Formats `n` in decimal.
pub fn decimal_string(n: u64) -> (s: String)
    ensures
        s@ == decimal(n as nat),
    decreases n,
{
    if n < 10 {
        let mut s = String::new();
        push_char(&mut s, digit_to_char(n));
        assert(s@ == seq![digit_char(n as nat)]);
        s
    } else {
        let mut s = decimal_string(n / 10);
        push_char(&mut s, digit_to_char(n % 10));
        s
    }
}

/// Formatting a number in decimal and parsing it back gives the number.
pub proof fn law_decimal_round_trip(n: u64)
    ensures
        parse_u64_spec(decimal(n as nat)) == Some(n),
{
    lemma_decimal_digits(n as nat);
    let s = decimal(n as nat);
    assert(is_digit(s[0]));
}

// ---------------------------------------------------------------------------
// Splitting
// ---------------------------------------------------------------------------

/// The pieces of `s` between occurrences of `sep`, as `str::split(sep)`
/// yields them: always at least one piece, empty pieces kept.
pub open spec fn split_char(s: Seq<char>, sep: char) -> Seq<Seq<char>>
    decreases s.len(),
{
    if s.len() == 0 {
        seq![Seq::<char>::empty()]
    } else {
        let p = split_char(s.drop_last(), sep);
        if s.last() == sep {
            p.push(Seq::<char>::empty())
        } else {
            p.update(p.len() - 1, p.last().push(s.last()))
        }
    }
}

pub proof fn lemma_split_nonempty(s: Seq<char>, sep: char)
    ensures
        split_char(s, sep).len() >= 1,
    decreases s.len(),
{
    if s.len() > 0 {
        lemma_split_nonempty(s.drop_last(), sep);
    }
}

/// Splits `s` at every `sep`.
pub fn split_chars(s: &[char], sep: char) -> (r: Vec<Vec<char>>)
    ensures
        r.len() == split_char(s@, sep).len(),
        forall|k: int| 0 <= k < r.len() ==> #[trigger] r[k]@ == split_char(s@, sep)[k],
{
    let mut done: Vec<Vec<char>> = Vec::new();
    let mut cur: Vec<char> = Vec::new();
    let mut i: usize = 0;
    while i < s.len()
        invariant
            i <= s.len(),
            done.len() + 1 == split_char(s@.take(i as int), sep).len(),
            forall|k: int| 0 <= k < done.len() ==> #[trigger] done[k]@ == split_char(s@.take(i as int), sep)[k],
            cur@ == split_char(s@.take(i as int), sep).last(),
        decreases s.len() - i,
    {
        proof {
            lemma_split_nonempty(s@.take(i as int), sep);
            assert(s@.take(i + 1).drop_last() == s@.take(i as int));
        }
        if s[i] == sep {
            done.push(cur);
            cur = Vec::new();
        } else {
            cur.push(s[i]);
        }
        i += 1;
    }
    assert(s@.take(s@.len() as int) == s@);
    done.push(cur);
    done
}

// ---------------------------------------------------------------------------
// Case and substrings
// ---------------------------------------------------------------------------

/// What `str::to_lowercase` makes of `s` (Unicode lowercase mapping).
pub uninterp spec fn str_lower(s: Seq<char>) -> Seq<char>;

/// Lowercases `s` (std's `str::to_lowercase`). The Unicode mapping is named,
/// not stated.
#[verifier::external_body]
pub(crate) fn to_lower(s: &str) -> (r: String)
    ensures
        r@ == str_lower(s@),
{
    s.to_lowercase()
}

/// `needle` occurs in `hay` (as `str::contains` with a string pattern).
pub open spec fn seq_contains(hay: Seq<char>, needle: Seq<char>) -> bool {
    exists|i: int| 0 <= i && i + needle.len() <= hay.len() && #[trigger] hay.subrange(i, i + needle.len()) == needle
}

/// `hay` begins with `needle` (as `str::starts_with`).
pub open spec fn seq_starts_with(hay: Seq<char>, needle: Seq<char>) -> bool {
    needle.len() <= hay.len() && hay.take(needle.len() as int) == needle
}

/// Whether `needle` occurs in `hay` at position `i`.
fn matches_at(hay: &[char], needle: &[char], i: usize) -> (r: bool)
    requires
        i + needle.len() <= hay.len(),
    ensures
        r == (hay@.subrange(i as int, i + needle.len()) == needle@),
{
    let mut k: usize = 0;
    while k < needle.len()
        invariant
            k <= needle.len(),
            i + needle.len() <= hay.len(),
            forall|j: int| 0 <= j < k ==> hay@[i + j] == needle@[j],
        decreases needle.len() - k,
    {
        if hay[i + k] != needle[k] {
            assert(hay@.subrange(i as int, i + needle.len())[k as int] != needle@[k as int]);
            return false;
        }
        k += 1;
    }
    assert(hay@.subrange(i as int, i + needle.len()) =~= needle@);
    true
}

/// Whether `needle` occurs in `hay`.
pub fn chars_contain(hay: &[char], needle: &[char]) -> (r: bool)
    ensures
        r == seq_contains(hay@, needle@),
{
    if needle.len() > hay.len() {
        return false;
    }
    if needle.len() == 0 {
        assert(hay@.subrange(0int, 0int + needle@.len()) =~= needle@);
        return true;
    }
    let last = hay.len() - needle.len();
    let mut i: usize = 0;
    while i <= last
        invariant
            last + needle.len() == hay.len(),
            needle.len() > 0,
            i <= last + 1,
            forall|j: int| 0 <= j < i ==> #[trigger] hay@.subrange(j, j + needle.len()) != needle@,
        decreases last + 1 - i,
    {
        if matches_at(hay, needle, i) {
            return true;
        }
        i += 1;
    }
    false
}

/// Whether `needle` occurs in `hay`.
pub fn str_contains(hay: &str, needle: &str) -> (r: bool)
    ensures
        r == seq_contains(hay@, needle@),
{
    let h = chars_of(hay);
    let n = chars_of(needle);
    chars_contain(h.as_slice(), n.as_slice())
}

/// Whether `hay` begins with `needle`.
pub fn chars_start_with(hay: &[char], needle: &[char]) -> (r: bool)
    ensures
        r == seq_starts_with(hay@, needle@),
{
    if needle.len() > hay.len() {
        return false;
    }
    let r = matches_at(hay, needle, 0);
    assert(hay@.subrange(0, needle@.len() as int) == hay@.take(needle@.len() as int));
    r
}

/// Whether `hay` begins with `needle`.
pub fn str_starts_with(hay: &str, needle: &str) -> (r: bool)
    ensures
        r == seq_starts_with(hay@, needle@),
{
    let h = chars_of(hay);
    let n = chars_of(needle);
    chars_start_with(h.as_slice(), n.as_slice())
}

/// The pieces of `parts` joined with `sep` between them (as `[&str]::join`).
pub open spec fn join_seq(parts: Seq<Seq<char>>, sep: Seq<char>) -> Seq<char>
    decreases parts.len(),
{
    if parts.len() == 0 {
        Seq::empty()
    } else if parts.len() == 1 {
        parts[0]
    } else {
        join_seq(parts.drop_last(), sep) + sep + parts.last()
    }
}

// ---------------------------------------------------------------------------
// Slicing, trimming and lines
// ---------------------------------------------------------------------------

/// A copy of `v[a..b]`.
pub fn sub_chars(v: &[char], a: usize, b: usize) -> (r: Vec<char>)
    requires
        a <= b <= v.len(),
    ensures
        r@ == v@.subrange(a as int, b as int),
{
    let mut r: Vec<char> = Vec::new();
    let mut i: usize = a;
    while i < b
        invariant
            a <= i <= b <= v.len(),
            r@ == v@.subrange(a as int, i as int),
        decreases b - i,
    {
        r.push(v[i]);
        assert(v@.subrange(a as int, i + 1) == v@.subrange(a as int, i as int).push(v@[i as int]));
        i += 1;
    }
    r
}

/// Unicode `White_Space`, the whitespace of `char::is_whitespace` and `str::trim`.
pub open spec fn is_ws(c: char) -> bool {
    c == '\t' || c == '\n' || c == '\u{0B}' || c == '\u{0C}' || c == '\r' || c == ' '
        || c == '\u{85}' || c == '\u{A0}' || c == '\u{1680}'
        || ('\u{2000}' <= c && c <= '\u{200A}')
        || c == '\u{2028}' || c == '\u{2029}' || c == '\u{202F}' || c == '\u{205F}' || c == '\u{3000}'
}

/// Whether `c` is Unicode whitespace.
pub fn char_is_ws(c: char) -> (r: bool)
    ensures
        r == is_ws(c),
{
    c == '\t' || c == '\n' || c == '\u{0B}' || c == '\u{0C}' || c == '\r' || c == ' '
        || c == '\u{85}' || c == '\u{A0}' || c == '\u{1680}'
        || ('\u{2000}' <= c && c <= '\u{200A}')
        || c == '\u{2028}' || c == '\u{2029}' || c == '\u{202F}' || c == '\u{205F}' || c == '\u{3000}'
}

/// `s` without leading whitespace.
pub open spec fn trim_start_ws(s: Seq<char>) -> Seq<char>
    decreases s.len(),
{
    if s.len() > 0 && is_ws(s[0]) { trim_start_ws(s.drop_first()) } else { s }
}

/// `s` without trailing whitespace.
pub open spec fn trim_end_ws(s: Seq<char>) -> Seq<char>
    decreases s.len(),
{
    if s.len() > 0 && is_ws(s.last()) { trim_end_ws(s.drop_last()) } else { s }
}

/// `s` without leading and trailing whitespace (as `str::trim`).
pub open spec fn trim_ws(s: Seq<char>) -> Seq<char> {
    trim_end_ws(trim_start_ws(s))
}

proof fn lemma_trim_start_skip(s: Seq<char>, i: int)
    requires
        0 <= i <= s.len(),
        forall|j: int| 0 <= j < i ==> is_ws(#[trigger] s[j]),
    ensures
        trim_start_ws(s) == trim_start_ws(s.skip(i)),
    decreases i,
{
    if i > 0 {
        assert(s.drop_first().skip(i - 1) == s.skip(i));
        assert forall|j: int| 0 <= j < i - 1 implies is_ws(#[trigger] s.drop_first()[j]) by {
            assert(s.drop_first()[j] == s[j + 1]);
        }
        lemma_trim_start_skip(s.drop_first(), i - 1);
    } else {
        assert(s.skip(0) == s);
    }
}

proof fn lemma_trim_end_take(s: Seq<char>, k: int)
    requires
        0 <= k <= s.len(),
        forall|j: int| k <= j < s.len() ==> is_ws(#[trigger] s[j]),
    ensures
        trim_end_ws(s) == trim_end_ws(s.take(k)),
    decreases s.len() - k,
{
    if k < s.len() {
        assert(s.drop_last().take(k) == s.take(k));
        assert(is_ws(s[s.len() - 1]));
        assert forall|j: int| k <= j < s.drop_last().len() implies is_ws(#[trigger] s.drop_last()[j]) by {
            assert(s.drop_last()[j] == s[j]);
        }
        lemma_trim_end_take(s.drop_last(), k);
    } else {
        assert(s.take(k) == s);
    }
}

/// `v` without leading and trailing whitespace.
pub fn trim_chars(v: &[char]) -> (r: Vec<char>)
    ensures
        r@ == trim_ws(v@),
{
    let mut a: usize = 0;
    while a < v.len() && char_is_ws(v[a])
        invariant
            a <= v.len(),
            forall|j: int| 0 <= j < a ==> is_ws(#[trigger] v@[j]),
        decreases v.len() - a,
    {
        a += 1;
    }
    proof {
        lemma_trim_start_skip(v@, a as int);
        if a < v.len() {
            assert(!is_ws(v@.skip(a as int)[0]));
        }
    }
    let ghost t = v@.skip(a as int);
    assert(trim_start_ws(t) == t);
    let mut b: usize = v.len();
    while b > a && char_is_ws(v[b - 1])
        invariant
            a <= b <= v.len(),
            t == v@.skip(a as int),
            forall|j: int| b - a <= j < t.len() ==> is_ws(#[trigger] t[j]),
        decreases b,
    {
        assert(t[b - 1 - a] == v@[b - 1]);
        b -= 1;
    }
    proof {
        lemma_trim_end_take(t, b - a);
        if b > a {
            assert(t.take(b - a).last() == v@[b - 1]);
        }
        assert(t.take(b - a) == v@.subrange(a as int, b as int));
    }
    sub_chars(v, a, b)
}

/// The trimmed chars of a string.
pub fn trim_str(s: &str) -> (r: Vec<char>)
    ensures
        r@ == trim_ws(s@),
{
    let v = chars_of(s);
    trim_chars(v.as_slice())
}

/// `s` with one trailing `c` removed, if it ends with one.
pub open spec fn strip_last(s: Seq<char>, c: char) -> Seq<char> {
    if s.len() > 0 && s.last() == c { s.drop_last() } else { s }
}

/// The lines of `s`, as `str::lines` gives them: split at `\n`, a line
/// ending `\r\n` loses its `\r`, and a final empty piece after the last
/// `\n` is no line.
pub open spec fn lines_of(s: Seq<char>) -> Seq<Seq<char>> {
    let parts = split_char(s, '\n');
    let n = parts.len() as int;
    let body = Seq::new((n - 1) as nat, |i: int| strip_last(parts[i], '\r'));
    if parts[n - 1].len() == 0 { body } else { body.push(parts[n - 1]) }
}

/// The lines of `s`.
pub fn lines(s: &[char]) -> (r: Vec<Vec<char>>)
    ensures
        r.len() == lines_of(s@).len(),
        forall|k: int| 0 <= k < r.len() ==> #[trigger] r[k]@ == lines_of(s@)[k],
{
    let parts = split_chars(s, '\n');
    proof { lemma_split_nonempty(s@, '\n'); }
    let n = parts.len();
    let ghost body = Seq::new((n - 1) as nat, |i: int| strip_last(split_char(s@, '\n')[i], '\r'));
    let mut out: Vec<Vec<char>> = Vec::new();
    let mut i: usize = 0;
    while i + 1 < n
        invariant
            n == parts.len() >= 1,
            i + 1 <= n,
            n == split_char(s@, '\n').len(),
            forall|k: int| 0 <= k < n ==> #[trigger] parts[k]@ == split_char(s@, '\n')[k],
            body == Seq::new((n - 1) as nat, |i: int| strip_last(split_char(s@, '\n')[i], '\r')),
            out.len() == i,
            forall|k: int| 0 <= k < i ==> #[trigger] out[k]@ == body[k],
        decreases n - i,
    {
        let p = &parts[i];
        let line = if p.len() > 0 && p[p.len() - 1] == '\r' {
            sub_chars(p.as_slice(), 0, p.len() - 1)
        } else {
            sub_chars(p.as_slice(), 0, p.len())
        };
        assert(p@.subrange(0, p@.len() as int) == p@);
        assert(p@.subrange(0, p@.len() - 1) == p@.drop_last());
        out.push(line);
        i += 1;
    }
    let last = &parts[n - 1];
    if last.len() > 0 {
        out.push(sub_chars(last.as_slice(), 0, last.len()));
        assert(last@.subrange(0, last@.len() as int) == last@);
    }
    out
}

/// The first index at or after `i` where `p` occurs in `h`.
pub open spec fn find_from(h: Seq<char>, p: Seq<char>, i: int) -> Option<int>
    decreases h.len() + 1 - i,
{
    if i < 0 || i + p.len() > h.len() {
        None
    } else if h.subrange(i, i + p.len()) == p {
        Some(i)
    } else {
        find_from(h, p, i + 1)
    }
}

/// The second piece of `h` split at a nonempty `p` (as
/// `str::split(p).nth(1)`): what follows the first `p`, up to the next one.
pub open spec fn second_piece(h: Seq<char>, p: Seq<char>) -> Option<Seq<char>> {
    match find_from(h, p, 0) {
        Some(i) => {
            let rest = h.skip(i + p.len());
            Some(match find_from(rest, p, 0) {
                Some(j) => rest.take(j),
                None => rest,
            })
        },
        None => None,
    }
}

/// Where `needle` first occurs in `hay` (as `str::find`).
pub fn find_chars(hay: &[char], needle: &[char]) -> (r: Option<usize>)
    ensures
        r matches Some(i) ==> find_from(hay@, needle@, 0) == Some(i as int),
        r is None ==> find_from(hay@, needle@, 0) is None,
        match r {
            Some(i) => i + needle.len() <= hay.len()
                && hay@.subrange(i as int, i + needle.len()) == needle@
                && forall|j: int| 0 <= j < i ==> #[trigger] hay@.subrange(j, j + needle.len()) != needle@,
            None => !seq_contains(hay@, needle@),
        },
        r is Some <==> seq_contains(hay@, needle@),
{
    if needle.len() > hay.len() {
        return None;
    }
    let last = hay.len() - needle.len();
    let mut i: usize = 0;
    while i <= last
        invariant
            last + needle.len() == hay.len(),
            i <= last + 1,
            find_from(hay@, needle@, 0) == find_from(hay@, needle@, i as int),
            forall|j: int| 0 <= j < i ==> #[trigger] hay@.subrange(j, j + needle.len()) != needle@,
        decreases last + 1 - i,
    {
        if matches_at(hay, needle, i) {
            return Some(i);
        }
        assert(find_from(hay@, needle@, i as int) == find_from(hay@, needle@, i + 1));
        if i == last {
            return None;
        }
        i += 1;
    }
    None
}

/// The second piece of `v` split at `p`.
pub fn second_piece_chars(v: &[char], p: &[char]) -> (r: Option<Vec<char>>)
    ensures
        match second_piece(v@, p@) {
            Some(x) => r matches Some(y) && y@ == x,
            None => r is None,
        },
{
    match find_chars(v, p) {
        None => None,
        Some(i) => {
            let rest = sub_chars(v, i + p.len(), v.len());
            assert(rest@ == v@.skip(i + p@.len()));
            match find_chars(rest.as_slice(), p) {
                Some(j) => {
                    let piece = sub_chars(rest.as_slice(), 0, j);
                    assert(piece@ == rest@.take(j as int));
                    Some(piece)
                },
                None => Some(rest),
            }
        },
    }
}

/// What `str::parse::<u32>` gives: the `u64` grammar with a `u32` range.
pub open spec fn parse_u32_spec(s: Seq<char>) -> Option<u32> {
    match parse_u64_spec(s) {
        Some(v) => if v <= u32::MAX { Some(v as u32) } else { None },
        None => None,
    }
}

/// Parses a decimal `u32` as `str::parse::<u32>` does.
pub fn parse_u32_chars(cs: &[char]) -> (r: Option<u32>)
    ensures
        r == parse_u32_spec(cs@),
{
    match parse_u64_chars(cs) {
        Some(v) => if v <= u32::MAX as u64 { Some(v as u32) } else { None },
        None => None,
    }
}

/// `s` with all leading and trailing `c` removed (as `str::trim_matches(c)`).
pub open spec fn trim_char(s: Seq<char>, c: char) -> Seq<char>
    decreases s.len(),
{
    if s.len() > 0 && s[0] == c {
        trim_char(s.drop_first(), c)
    } else if s.len() > 0 && s.last() == c {
        trim_char(s.drop_last(), c)
    } else {
        s
    }
}

/// Removes all leading and trailing `c`.
pub fn trim_char_chars(v: &[char], c: char) -> (r: Vec<char>)
    ensures
        r@ == trim_char(v@, c),
    decreases v.len(),
{
    if v.len() > 0 && v[0] == c {
        let rest = sub_chars(v, 1, v.len());
        assert(v@.subrange(1, v@.len() as int) == v@.drop_first());
        trim_char_chars(rest.as_slice(), c)
    } else if v.len() > 0 && v[v.len() - 1] == c {
        let rest = sub_chars(v, 0, v.len() - 1);
        assert(v@.subrange(0, v@.len() - 1) == v@.drop_last());
        trim_char_chars(rest.as_slice(), c)
    } else {
        sub_chars(v, 0, v.len())
    }
}

/// `s` with all trailing `c` removed (as `str::trim_end_matches(c)`).
pub open spec fn trim_end_char(s: Seq<char>, c: char) -> Seq<char>
    decreases s.len(),
{
    if s.len() > 0 && s.last() == c { trim_end_char(s.drop_last(), c) } else { s }
}

/// Removes all trailing `c`.
pub fn trim_end_char_chars(v: &[char], c: char) -> (r: Vec<char>)
    ensures
        r@ == trim_end_char(v@, c),
    decreases v.len(),
{
    if v.len() > 0 && v[v.len() - 1] == c {
        let rest = sub_chars(v, 0, v.len() - 1);
        assert(v@.subrange(0, v@.len() - 1) == v@.drop_last());
        trim_end_char_chars(rest.as_slice(), c)
    } else {
        sub_chars(v, 0, v.len())
    }
}

/// `s` with every leading copy of `p` removed (as `str::trim_start_matches(p)`).
pub open spec fn strip_all_prefix(s: Seq<char>, p: Seq<char>) -> Seq<char>
    decreases s.len(),
{
    if p.len() > 0 && seq_starts_with(s, p) { strip_all_prefix(s.skip(p.len() as int), p) } else { s }
}

/// Removes every leading copy of `p`.
pub fn strip_all_prefix_chars(v: &[char], p: &[char]) -> (r: Vec<char>)
    ensures
        r@ == strip_all_prefix(v@, p@),
    decreases v.len(),
{
    if p.len() > 0 && chars_start_with(v, p) {
        let rest = sub_chars(v, p.len(), v.len());
        assert(v@.subrange(p.len() as int, v@.len() as int) == v@.skip(p.len() as int));
        strip_all_prefix_chars(rest.as_slice(), p)
    } else {
        sub_chars(v, 0, v.len())
    }
}

/// `s` with each non-overlapping occurrence of `p`, from the left, replaced
/// by `w` (as `str::replace` with a nonempty pattern).
pub open spec fn replace_all(s: Seq<char>, p: Seq<char>, w: Seq<char>) -> Seq<char>
    decreases s.len(),
{
    if s.len() == 0 || p.len() == 0 {
        s
    } else if seq_starts_with(s, p) {
        w + replace_all(s.skip(p.len() as int), p, w)
    } else {
        seq![s[0]] + replace_all(s.drop_first(), p, w)
    }
}

/// Replaces each occurrence of `p` in `v` by `w`.
pub fn replace_chars(v: &[char], p: &[char], w: &[char]) -> (r: Vec<char>)
    ensures
        r@ == replace_all(v@, p@, w@),
{
    if p.len() == 0 {
        return sub_chars(v, 0, v.len());
    }
    let mut out: Vec<char> = Vec::new();
    let mut i: usize = 0;
    assert(v@.skip(0) == v@);
    while i < v.len()
        invariant
            i <= v.len(),
            p.len() > 0,
            out@ + replace_all(v@.skip(i as int), p@, w@) == replace_all(v@, p@, w@),
        decreases v.len() - i,
    {
        let ghost rest = v@.skip(i as int);
        if p.len() <= v.len() - i && matches_at(v, p, i) {
            assert(rest.take(p@.len() as int) == v@.subrange(i as int, i + p@.len()));
            assert(rest.skip(p@.len() as int) == v@.skip(i + p@.len()));
            let mut k: usize = 0;
            let ghost before = out@;
            while k < w.len()
                invariant
                    k <= w.len(),
                    out@ == before + w@.take(k as int),
                decreases w.len() - k,
            {
                out.push(w[k]);
                assert(w@.take(k + 1) == w@.take(k as int).push(w@[k as int]));
                k += 1;
            }
            assert(w@.take(w@.len() as int) == w@);
            assert(out@ + replace_all(v@.skip(i + p@.len()), p@, w@) == before + (w@ + replace_all(rest.skip(p@.len() as int), p@, w@)));
            i += p.len();
        } else {
            assert(!seq_starts_with(rest, p@)) by {
                if seq_starts_with(rest, p@) {
                    assert(rest.take(p@.len() as int) == v@.subrange(i as int, i + p@.len()));
                }
            }
            let ghost before = out@;
            out.push(v[i]);
            assert(rest.drop_first() == v@.skip(i + 1));
            assert(rest[0] == v@[i as int]);
            assert(out@ + replace_all(v@.skip(i + 1), p@, w@) == before + (seq![rest[0]] + replace_all(rest.drop_first(), p@, w@)));
            i += 1;
        }
    }
    assert(v@.skip(v@.len() as int) == Seq::<char>::empty());
    assert(out@ + Seq::<char>::empty() == out@);
    out
}

/// The first whitespace-separated word of `s` (as `split_whitespace().next()`).
pub open spec fn first_word(s: Seq<char>) -> Option<Seq<char>> {
    let t = trim_start_ws(s);
    if t.len() == 0 {
        None
    } else {
        Some(t.take(word_len(t, 0)))
    }
}

/// Length of the run of non-whitespace chars of `t` from `i` on, plus `i`.
pub open spec fn word_len(t: Seq<char>, i: int) -> int
    decreases t.len() - i,
{
    if i < 0 || i >= t.len() || is_ws(t[i]) { if i < 0 { 0 } else { i } } else { word_len(t, i + 1) }
}

/// The first word of `v`.
pub fn first_word_chars(v: &[char]) -> (r: Option<Vec<char>>)
    ensures
        match first_word(v@) {
            Some(w) => r matches Some(x) && x@ == w,
            None => r is None,
        },
{
    let mut a: usize = 0;
    while a < v.len() && char_is_ws(v[a])
        invariant
            a <= v.len(),
            forall|j: int| 0 <= j < a ==> is_ws(#[trigger] v@[j]),
        decreases v.len() - a,
    {
        a += 1;
    }
    proof {
        lemma_trim_start_skip(v@, a as int);
        if a < v.len() {
            assert(!is_ws(v@.skip(a as int)[0]));
        }
    }
    let ghost t = v@.skip(a as int);
    assert(trim_start_ws(t) == t);
    if a == v.len() {
        return None;
    }
    let mut b: usize = a;
    while b < v.len() && !char_is_ws(v[b])
        invariant
            a <= b <= v.len(),
            t == v@.skip(a as int),
            word_len(t, 0) == word_len(t, b - a),
        decreases v.len() - b,
    {
        assert(t[b - a] == v@[b as int]);
        b += 1;
    }
    proof {
        if b < v.len() {
            assert(t[b - a] == v@[b as int]);
        }
        assert(word_len(t, b - a) == b - a);
        assert(t.take(b - a) == v@.subrange(a as int, b as int));
    }
    Some(sub_chars(v, a, b))
}

/// Whether `lit` occurs in `hay`.
pub fn chars_contain_str(hay: &[char], lit: &str) -> (r: bool)
    ensures
        r == seq_contains(hay@, lit@),
{
    let n = chars_of(lit);
    chars_contain(hay, n.as_slice())
}

/// The whitespace-separated words of `s` (as `str::split_whitespace`): the
/// maximal runs of non-whitespace chars, in order.
pub open spec fn words_of(s: Seq<char>) -> Seq<Seq<char>>
    decreases s.len(),
{
    if s.len() == 0 {
        Seq::empty()
    } else {
        let ws = words_of(s.drop_last());
        let c = s.last();
        if is_ws(c) {
            ws
        } else if s.len() >= 2 && !is_ws(s[s.len() - 2]) {
            ws.update(ws.len() - 1, ws.last().push(c))
        } else {
            ws.push(seq![c])
        }
    }
}

pub proof fn lemma_words_nonempty(s: Seq<char>)
    ensures
        s.len() > 0 && !is_ws(s.last()) ==> words_of(s).len() > 0,
        forall|k: int| 0 <= k < words_of(s).len() ==> 0 < #[trigger] words_of(s)[k].len() <= s.len(),
    decreases s.len(),
{
    if s.len() > 0 {
        lemma_words_nonempty(s.drop_last());
        let t = s.drop_last();
        if s.len() >= 2 && !is_ws(s[s.len() - 2]) {
            assert(t.last() == s[s.len() - 2]);
        }
    }
}

/// A word: at least one char, none of them whitespace.
pub open spec fn is_word(w: Seq<char>) -> bool {
    w.len() > 0 && forall|i: int| 0 <= i < w.len() ==> !is_ws(#[trigger] w[i])
}

/// Every piece `words_of` gives is a word.
pub proof fn lemma_words_are_words(s: Seq<char>)
    ensures
        forall|k: int| 0 <= k < words_of(s).len() ==> is_word(#[trigger] words_of(s)[k]),
    decreases s.len(),
{
    if s.len() > 0 {
        let t = s.drop_last();
        lemma_words_are_words(t);
        lemma_words_nonempty(t);
        let ws = words_of(t);
        let c = s.last();
        if !is_ws(c) && s.len() >= 2 && !is_ws(s[s.len() - 2]) {
            assert(t.last() == s[s.len() - 2]);
            let last = ws.last().push(c);
            assert(is_word(ws[ws.len() - 1]));
            assert forall|i: int| 0 <= i < last.len() implies !is_ws(#[trigger] last[i]) by {
                if i < last.len() - 1 {
                    assert(last[i] == ws[ws.len() - 1][i]);
                }
            }
        } else if !is_ws(c) {
            assert(seq![c][0] == c);
        }
    }
}

/// A word is its only word.
pub proof fn lemma_words_of_word(w: Seq<char>)
    requires
        is_word(w),
    ensures
        words_of(w) == seq![w],
    decreases w.len(),
{
    let p = w.drop_last();
    assert(!is_ws(w[w.len() - 1]));
    if w.len() == 1 {
        assert(p.len() == 0);
        assert(words_of(p) == Seq::<Seq<char>>::empty());
        assert(seq![w.last()] =~= w);
        assert(Seq::<Seq<char>>::empty().push(seq![w.last()]) =~= seq![w]);
    } else {
        assert(is_word(p)) by {
            assert forall|i: int| 0 <= i < p.len() implies !is_ws(#[trigger] p[i]) by {
                assert(p[i] == w[i]);
            }
        }
        lemma_words_of_word(p);
        assert(!is_ws(w[w.len() - 2]));
        assert(p.push(w.last()) =~= w);
        assert(words_of(p).last() == p);
        assert(seq![p].update(0, p.push(w.last())) =~= seq![w]);
    }
}

/// Joining with a space keeps the words of both sides apart.
pub proof fn lemma_words_space_join(a: Seq<char>, b: Seq<char>)
    ensures
        words_of(a.push(' ') + b) == words_of(a) + words_of(b),
    decreases b.len(),
{
    let s = a.push(' ') + b;
    if b.len() == 0 {
        assert(s =~= a.push(' '));
        assert(s.drop_last() =~= a);
        assert(words_of(a) + Seq::<Seq<char>>::empty() =~= words_of(a));
    } else {
        let b1 = b.drop_last();
        let c = b.last();
        lemma_words_space_join(a, b1);
        assert(s.drop_last() =~= a.push(' ') + b1);
        assert(s.last() == c);
        let wa = words_of(a);
        let wb1 = words_of(b1);
        if is_ws(c) {
        } else if b.len() >= 2 && !is_ws(b[b.len() - 2]) {
            assert(s[s.len() - 2] == b[b.len() - 2]);
            assert(b1.last() == b[b.len() - 2]);
            lemma_words_nonempty(b1);
            assert((wa + wb1).update(wa.len() + wb1.len() - 1, (wa + wb1).last().push(c))
                =~= wa + wb1.update(wb1.len() - 1, wb1.last().push(c)));
        } else {
            if b.len() == 1 {
                assert(s[s.len() - 2] == ' ');
            } else {
                assert(s[s.len() - 2] == b[b.len() - 2]);
            }
            assert((wa + wb1).push(seq![c]) =~= wa + wb1.push(seq![c]));
        }
    }
}

/// The words of `v`.
pub fn split_whitespace_chars(v: &[char]) -> (r: Vec<Vec<char>>)
    ensures
        r.len() == words_of(v@).len(),
        forall|k: int| 0 <= k < r.len() ==> #[trigger] r[k]@ == words_of(v@)[k],
{
    let mut done: Vec<Vec<char>> = Vec::new();
    let mut cur: Vec<char> = Vec::new();
    let mut in_word = false;
    let mut i: usize = 0;
    while i < v.len()
        invariant
            i <= v.len(),
            in_word == (i > 0 && !is_ws(v@[i - 1])),
            !in_word ==> cur@.len() == 0,
            ({
                let w = words_of(v@.take(i as int));
                &&& in_word ==> w.len() == done.len() + 1 && w.last() == cur@
                &&& !in_word ==> w.len() == done.len()
                &&& forall|k: int| 0 <= k < done.len() ==> #[trigger] done[k]@ == w[k]
            }),
        decreases v.len() - i,
    {
        let c = v[i];
        proof {
            assert(v@.take(i + 1).drop_last() == v@.take(i as int));
            assert(v@.take(i + 1).last() == c);
            if i >= 1 {
                assert(v@.take(i + 1)[i - 1] == v@[i - 1]);
            }
            lemma_words_nonempty(v@.take(i as int));
            if in_word {
                assert(v@.take(i as int).last() == v@[i - 1]);
            }
        }
        if char_is_ws(c) {
            if in_word {
                done.push(cur);
                cur = Vec::new();
            }
            in_word = false;
        } else {
            cur.push(c);
            in_word = true;
        }
        i += 1;
    }
    assert(v@.take(v.len() as int) == v@);
    if in_word {
        done.push(cur);
    }
    done
}

} // verus!
