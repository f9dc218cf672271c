//! Text as sequences of characters: decimal numbers, searching, replacing.

use vstd::prelude::*;
use vstd::utf8::*;

verus! {

/// `String::push`: "Appends the given char to the end of this String."
pub assume_specification[ String::push ](s: &mut String, c: char)
    ensures
        final(s)@ == old(s)@.push(c),
;

/// The text that `String::from_utf8_lossy` makes of any bytes.
pub uninterp spec fn lossy_utf8(bytes: Seq<u8>) -> Seq<char>;

/// `String::from_utf8_lossy`: the bytes' own text where they are valid UTF-8.
/// Of other bytes only that the text depends on nothing else: where the
/// replacement characters fall is not said.
#[verifier::external_body]
fn lossy_text(bytes: &[u8]) -> (r: String)
    ensures
        r@ == lossy_utf8(bytes@),
        valid_utf8(bytes@) ==> r@ == decode_utf8(bytes@),
{
    String::from_utf8_lossy(bytes).into_owned()
}

/// `std::str::from_utf8`: the text of the bytes if and only if they are valid
/// UTF-8.
#[verifier::external_body]
pub(crate) fn utf8_text(bytes: &[u8]) -> (r: Option<&str>)
    ensures
        r is Some <==> valid_utf8(bytes@),
        r matches Some(s) ==> s@ == decode_utf8(bytes@),
{
    std::str::from_utf8(bytes).ok()
}

/// The text of any bytes: their own where they are valid UTF-8.
pub open spec fn shown(bytes: Seq<u8>) -> Seq<char> {
    if valid_utf8(bytes) {
        decode_utf8(bytes)
    } else {
        lossy_utf8(bytes)
    }
}

/// The text of any bytes.
pub fn show(bytes: &[u8]) -> (r: String)
    ensures
        r@ == shown(bytes@),
{
    lossy_text(bytes)
}

/// The bytes of two texts in a row are the bytes of the one, then of the other.
pub proof fn encode_concat(a: Seq<char>, b: Seq<char>)
    ensures
        encode_utf8(a + b) == encode_utf8(a) + encode_utf8(b),
    decreases a.len(),
{
    if a.len() == 0 {
        assert(a + b =~= b);
        assert(encode_utf8(a) + encode_utf8(b) =~= encode_utf8(b));
    } else {
        encode_concat(a.drop_first(), b);
        assert((a + b).drop_first() =~= a.drop_first() + b);
        assert(encode_utf8(a + b) =~= encode_utf8(a) + encode_utf8(b));
    }
}

/// The bytes of a text show as the text.
pub proof fn shown_undoes_encoding(s: Seq<char>)
    ensures
        shown(encode_utf8(s)) == s,
{
    encode_utf8_valid_utf8(s);
    encode_utf8_decode_utf8(s);
}

/// An ASCII capital letter becomes its small letter; all else stays.
pub open spec fn ascii_lower(c: char) -> char {
    if 'A' <= c <= 'Z' {
        (c as u32 + 32) as char
    } else {
        c
    }
}

/// The text that `str::to_lowercase` makes of a text.
pub uninterp spec fn lowercase(s: Seq<char>) -> Seq<char>;

/// `str::to_lowercase`: on ASCII text each letter becomes its small letter.
/// Of other text only that the result depends on nothing else: the Unicode
/// case mapping is not said.
#[verifier::external_body]
fn lowercase_text(s: &str) -> (r: String)
    ensures
        r@ == lowercase(s@),
        s.is_ascii() ==> r@ == s@.map_values(|c: char| ascii_lower(c)),
{
    s.to_lowercase()
}

/// A text in small letters.
pub open spec fn lowered(s: Seq<char>) -> Seq<char> {
    if is_ascii_chars(s) {
        s.map_values(|c: char| ascii_lower(c))
    } else {
        lowercase(s)
    }
}

/// A text in small letters.
pub fn lower(s: &str) -> (r: String)
    ensures
        r@ == lowered(s@),
{
    lowercase_text(s)
}

/// The strings of a list as sequences of characters.
pub open spec fn texts(v: Seq<String>) -> Seq<Seq<char>> {
    v.map_values(|s: String| s@)
}

/// Adds a text to a list.
pub fn push_text(v: &mut Vec<String>, s: &str)
    ensures
        texts(final(v)@) == texts(old(v)@).push(s@),
{
    v.push(s.to_owned());
    assert(texts(v@) =~= texts(old(v)@).push(s@));
}

/// The characters of a text.
pub fn chars_of(s: &str) -> (r: Vec<char>)
    ensures
        r@ == s@,
{
    let mut v: Vec<char> = Vec::new();
    for c in it: s.chars()
        invariant
            it.seq() == s@,
            v@ == s@.take(it.index() as int),
    {
        v.push(c);
        assert(s@.take(it.index() + 1) =~= s@.take(it.index() as int).push(c));
    }
    assert(s@.take(s@.len() as int) =~= s@);
    v
}

/// The text of the characters from `from` up to `to`.
pub fn text_of(v: &[char], from: usize, to: usize) -> (r: String)
    requires
        from <= to <= v@.len(),
    ensures
        r@ == v@.subrange(from as int, to as int),
{
    let mut s = String::new();
    for i in from..to
        invariant
            from <= to <= v@.len(),
            s@ == v@.subrange(from as int, i as int),
    {
        s.push(v[i]);
        assert(v@.subrange(from as int, i + 1) =~= v@.subrange(from as int, i as int).push(v@[i as int]));
    }
    s
}

/// Whether two texts are the same.
pub fn str_eq(a: &str, b: &str) -> (r: bool)
    ensures
        r == (a@ == b@),
{
    a.to_owned() == b.to_owned()
}

// ── Decimal numbers ───────────────────────────────────────────────────────────

/// The character of a decimal digit.
pub open spec fn digit(d: nat) -> char {
    (48 + d) as char
}

/// A number in decimal, without leading zeros.
pub open spec fn decimal(n: nat) -> Seq<char>
    decreases n,
{
    if n < 10 {
        seq![digit(n)]
    } else {
        decimal(n / 10).push(digit(n % 10))
    }
}

/// A number in decimal, with leading zeros up to `width` characters.
pub open spec fn padded(n: nat, width: nat) -> Seq<char> {
    let d = decimal(n);
    if d.len() < width {
        Seq::new((width - d.len()) as nat, |i: int| '0') + d
    } else {
        d
    }
}

/// A signed number in decimal.
pub open spec fn signed_decimal(n: int) -> Seq<char> {
    if n < 0 {
        seq!['-'] + decimal((-n) as nat)
    } else {
        decimal(n as nat)
    }
}

/// Writes a number in decimal.
pub fn dec(n: u128) -> (r: String)
    ensures
        r@ == decimal(n as nat),
    decreases n,
{
    let c = (48u8 + (n % 10) as u8) as char;
    if n < 10 {
        let mut s = String::new();
        s.push(c);
        assert(s@ =~= decimal(n as nat));
        s
    } else {
        let mut s = dec(n / 10);
        s.push(c);
        s
    }
}

/// Writes a number in decimal, with leading zeros up to `width` characters.
pub fn dec_padded(n: u128, width: usize) -> (r: String)
    ensures
        r@ == padded(n as nat, width as nat),
{
    let d = dec(n);
    let len = chars_of(d.as_str()).len();
    let mut s = String::new();
    let mut i: usize = len;
    while i < width
        invariant
            len <= i,
            i <= width || i == len,
            s@ == Seq::new((i - len) as nat, |j: int| '0'),
        decreases width - i,
    {
        s.push('0');
        i = i + 1;
        assert(s@ =~= Seq::new((i - len) as nat, |j: int| '0'));
    }
    s.append(d.as_str());
    assert(s@ =~= padded(n as nat, width as nat));
    s
}

/// Writes a signed number in decimal.
pub fn dec_signed(n: i32) -> (r: String)
    ensures
        r@ == signed_decimal(n as int),
{
    if n < 0 {
        let mut s = String::new();
        s.push('-');
        assert(s@ =~= seq!['-']);
        let d = dec((-(n as i64)) as u128);
        s.append(d.as_str());
        s
    } else {
        dec(n as u128)
    }
}

/// What a decimal text means, digit by digit.
pub open spec fn decimal_value(s: Seq<char>) -> nat
    decreases s.len(),
{
    if s.len() == 0 {
        0
    } else {
        decimal_value(s.drop_last()) * 10 + (s.last() as nat - 48) as nat
    }
}

/// Whether a text is nothing but decimal digits, at least one.
pub open spec fn all_digits(s: Seq<char>) -> bool {
    s.len() > 0 && forall|i: int| 0 <= i < s.len() ==> '0' <= #[trigger] s[i] <= '9'
}

/// A number written in decimal is digits only, and reads back as itself.
pub proof fn decimal_reads_back(n: nat)
    ensures
        all_digits(decimal(n)),
        decimal_value(decimal(n)) == n,
    decreases n,
{
    if n < 10 {
        assert(decimal(n).drop_last() =~= Seq::<char>::empty());
        assert(decimal_value(Seq::<char>::empty()) == 0);
    } else {
        decimal_reads_back(n / 10);
        assert(decimal(n).drop_last() =~= decimal(n / 10));
    }
}

/// Two numbers written alike are the same number.
pub proof fn decimal_is_injective(a: nat, b: nat)
    requires
        decimal(a) == decimal(b),
    ensures
        a == b,
{
    decimal_reads_back(a);
    decimal_reads_back(b);
}

proof fn lemma_leading_zero(s: Seq<char>)
    ensures
        decimal_value(seq!['0'] + s) == decimal_value(s),
    decreases s.len(),
{
    let z = seq!['0'] + s;
    if s.len() == 0 {
        assert(z.drop_last() =~= Seq::empty());
        assert(decimal_value(Seq::<char>::empty()) == 0);
    } else {
        lemma_leading_zero(s.drop_last());
        assert(z.drop_last() =~= seq!['0'] + s.drop_last());
    }
}

proof fn lemma_leading_zeros(k: nat, s: Seq<char>)
    ensures
        decimal_value(Seq::new(k, |i: int| '0') + s) == decimal_value(s),
    decreases k,
{
    let z = Seq::new(k, |i: int| '0') + s;
    if k == 0 {
        assert(z =~= s);
    } else {
        let less = Seq::new((k - 1) as nat, |i: int| '0') + s;
        lemma_leading_zeros((k - 1) as nat, s);
        lemma_leading_zero(less);
        assert(z =~= seq!['0'] + less);
    }
}

/// A number written with leading zeros is digits only, at least as many as
/// asked for, and reads back as itself.
pub proof fn padded_reads_back(n: nat, width: nat)
    ensures
        all_digits(padded(n, width)),
        padded(n, width).len() >= width,
        decimal_value(padded(n, width)) == n,
{
    decimal_reads_back(n);
    let d = decimal(n);
    if d.len() < width {
        lemma_leading_zeros((width - d.len()) as nat, d);
    }
}

/// The number that a text stands for: digits, with or without a plus sign
/// before them, of a value that fits.
pub open spec fn parsed_u32(s: Seq<char>) -> Option<u32> {
    let d = if s.len() > 0 && s[0] == '+' {
        s.skip(1)
    } else {
        s
    };
    if all_digits(d) && decimal_value(d) <= u32::MAX {
        Some(decimal_value(d) as u32)
    } else {
        None
    }
}

proof fn lemma_more_digits_mean_no_less(s: Seq<char>, k: int)
    requires
        0 <= k <= s.len(),
    ensures
        decimal_value(s.take(k)) <= decimal_value(s),
    decreases s.len(),
{
    if k == s.len() {
        assert(s.take(k) =~= s);
    } else {
        lemma_more_digits_mean_no_less(s.drop_last(), k);
        assert(s.drop_last().take(k) =~= s.take(k));
    }
}

/// Reads a number out of a text.
pub fn parse_u32(s: &str) -> (r: Option<u32>)
    ensures
        r == parsed_u32(s@),
{
    let v = chars_of(s);
    let start: usize = if v.len() > 0 && v[0] == '+' {
        1
    } else {
        0
    };
    let ghost d = v@.skip(start as int);
    assert(v@.skip(0) =~= v@);
    if start == v.len() {
        return None;
    }
    let mut n: u64 = 0;
    assert(d.take(0) =~= Seq::<char>::empty());
    assert(decimal_value(Seq::<char>::empty()) == 0);
    for i in start..v.len()
        invariant
            start <= v@.len(),
            v@ == s@,
            d == v@.skip(start as int),
            start == (if s@.len() > 0 && s@[0] == '+' {
                1int
            } else {
                0int
            }),
            v@.skip(0) == v@,
            n <= u32::MAX,
            n == decimal_value(d.take(i - start)),
            forall|j: int| 0 <= j < i - start ==> '0' <= #[trigger] d[j] <= '9',
    {
        let c = v[i];
        assert(d[i - start] == c);
        if c < '0' || c > '9' {
            return None;
        }
        let ghost more = d.take(i - start + 1);
        assert(more.drop_last() =~= d.take(i - start));
        n = n * 10 + (c as u32 - 48) as u64;
        if n > u32::MAX as u64 {
            proof {
                lemma_more_digits_mean_no_less(d, i - start + 1);
            }
            return None;
        }
    }
    assert(d.take(d.len() as int) =~= d);
    Some(n as u32)
}

/// A number written in decimal is parsed as itself.
pub proof fn parse_reads_back(n: u32)
    ensures
        parsed_u32(decimal(n as nat)) == Some(n),
{
    decimal_reads_back(n as nat);
}

// ── Searching ─────────────────────────────────────────────────────────────────

/// Where `c` first occurs in `s`; the length of `s` if it does not.
pub open spec fn find_first(s: Seq<char>, c: char) -> int
    decreases s.len(),
{
    if s.len() == 0 || s[0] == c {
        0
    } else {
        1 + find_first(s.drop_first(), c)
    }
}

/// What stands before the first `c`; all of `s` if there is none.
pub open spec fn before_first(s: Seq<char>, c: char) -> Seq<char> {
    s.take(find_first(s, c))
}

/// What stands behind the first `c`.
pub open spec fn after_first(s: Seq<char>, c: char) -> Seq<char>
    recommends
        s.contains(c),
{
    s.skip(find_first(s, c) + 1)
}

/// The first place of `c` is the one with no `c` before it.
pub proof fn find_first_is(s: Seq<char>, c: char, p: int)
    requires
        0 <= p <= s.len(),
        forall|i: int| 0 <= i < p ==> s[i] != c,
        p < s.len() ==> s[p] == c,
    ensures
        find_first(s, c) == p,
        s.contains(c) == (p < s.len()),
    decreases s.len(),
{
    if p > 0 {
        let t = s.drop_first();
        assert forall|i: int| 0 <= i < p - 1 implies t[i] != c by {
            assert(s[i + 1] != c);
        }
        find_first_is(t, c, p - 1);
    }
    if s.contains(c) {
        let k = choose|k: int| 0 <= k < s.len() && s[k] == c;
        assert(p <= k);
    }
}

/// The first place of `c` holds `c`, and no place before it does.
pub proof fn find_first_finds(s: Seq<char>, c: char)
    ensures
        0 <= find_first(s, c) <= s.len(),
        forall|i: int| 0 <= i < find_first(s, c) ==> s[i] != c,
        find_first(s, c) < s.len() <==> s.contains(c),
        find_first(s, c) < s.len() ==> s[find_first(s, c)] == c,
    decreases s.len(),
{
    if s.len() > 0 && s[0] != c {
        let t = s.drop_first();
        find_first_finds(t, c);
        assert forall|i: int| 0 <= i < find_first(s, c) implies s[i] != c by {
            if i > 0 {
                assert(t[i - 1] != c);
            }
        }
        if s.contains(c) {
            let k = choose|k: int| 0 <= k < s.len() && s[k] == c;
            assert(t[k - 1] == c);
        }
    }
}

/// The first place of `c` among the characters from `from` up to `to`.
pub fn find_char(v: &[char], from: usize, to: usize, c: char) -> (r: usize)
    requires
        from <= to <= v@.len(),
    ensures
        from <= r <= to,
        r - from == find_first(v@.subrange(from as int, to as int), c),
        r < to <==> v@.subrange(from as int, to as int).contains(c),
{
    let mut i: usize = from;
    let ghost s = v@.subrange(from as int, to as int);
    while i < to && v[i] != c
        invariant
            from <= i <= to <= v@.len(),
            s == v@.subrange(from as int, to as int),
            forall|j: int| 0 <= j < i - from ==> s[j] != c,
        decreases to - i,
    {
        assert(s[i - from] == v@[i as int]);
        i = i + 1;
    }
    proof {
        if i < to {
            assert(s[i - from] == v@[i as int]);
        }
        find_first_is(s, c, i - from);
    }
    i
}

/// Where `c` last occurs in `s`; -1 if it does not.
pub open spec fn find_last(s: Seq<char>, c: char) -> int
    decreases s.len(),
{
    if s.len() == 0 {
        -1
    } else if s.last() == c {
        s.len() - 1
    } else {
        find_last(s.drop_last(), c)
    }
}

/// What stands behind the last `c`; all of `s` if there is none.
pub open spec fn after_last(s: Seq<char>, c: char) -> Seq<char> {
    s.skip(find_last(s, c) + 1)
}

/// The last place of `c` is the one with no `c` behind it.
pub proof fn find_last_is(s: Seq<char>, c: char, p: int)
    requires
        -1 <= p < s.len(),
        forall|i: int| p < i < s.len() ==> s[i] != c,
        p >= 0 ==> s[p] == c,
    ensures
        find_last(s, c) == p,
    decreases s.len(),
{
    if s.len() > 0 && p < s.len() - 1 {
        let t = s.drop_last();
        assert forall|i: int| p < i < t.len() implies t[i] != c by {
            assert(s[i] != c);
        }
        find_last_is(t, c, p);
    }
}

/// The text behind the last `c`.
pub fn text_after_last(s: &str, c: char) -> (r: String)
    ensures
        r@ == after_last(s@, c),
{
    let v = chars_of(s);
    let mut i: usize = v.len();
    while i > 0 && v[i - 1] != c
        invariant
            i <= v@.len(),
            forall|j: int| i <= j < v@.len() ==> v@[j] != c,
        decreases i,
    {
        i = i - 1;
    }
    proof {
        find_last_is(v@, c, i - 1);
        assert(v@.subrange(i as int, v@.len() as int) =~= v@.skip(i as int));
    }
    text_of(v.as_slice(), i, v.len())
}

/// Whether `s` begins with `prefix`.
pub open spec fn has_prefix(s: Seq<char>, prefix: Seq<char>) -> bool {
    prefix.len() <= s.len() && s.take(prefix.len() as int) == prefix
}

/// Whether `s` ends with `suffix`.
pub open spec fn has_suffix(s: Seq<char>, suffix: Seq<char>) -> bool {
    suffix.len() <= s.len() && s.skip(s.len() - suffix.len()) == suffix
}

/// Whether the characters at `at` are those of `w`.
fn matches_at(v: &[char], at: usize, w: &[char]) -> (r: bool)
    requires
        at + w@.len() <= v@.len(),
    ensures
        r == (v@.subrange(at as int, at + w@.len()) == w@),
{
    let mut i: usize = 0;
    let n = v.len();
    while i < w.len()
        invariant
            i <= w@.len(),
            n == v@.len(),
            at + w@.len() <= v@.len(),
            forall|j: int| 0 <= j < i ==> v@[at + j] == w@[j],
        decreases w@.len() - i,
    {
        if v[at + i] != w[i] {
            assert(v@.subrange(at as int, at + w@.len())[i as int] != w@[i as int]);
            return false;
        }
        i = i + 1;
    }
    assert(v@.subrange(at as int, at + w@.len()) =~= w@);
    true
}

/// Whether `s` begins with `prefix`.
pub fn starts_with(s: &str, prefix: &str) -> (r: bool)
    ensures
        r == has_prefix(s@, prefix@),
{
    let v = chars_of(s);
    let w = chars_of(prefix);
    assert(w@.len() <= v@.len() ==> v@.subrange(0, w@.len() as int) =~= v@.take(w@.len() as int));
    w.len() <= v.len() && matches_at(v.as_slice(), 0, w.as_slice())
}

/// Whether `s` ends with `suffix`.
pub fn ends_with(s: &str, suffix: &str) -> (r: bool)
    ensures
        r == has_suffix(s@, suffix@),
{
    let v = chars_of(s);
    let w = chars_of(suffix);
    assert(w@.len() <= v@.len() ==> v@.subrange(v@.len() - w@.len(), v@.len() as int) =~= v@.skip(
        v@.len() - w@.len(),
    ));
    w.len() <= v.len() && matches_at(v.as_slice(), v.len() - w.len(), w.as_slice())
}

// ── Replacing ─────────────────────────────────────────────────────────────────

/// `s` with `with` in place of each `c`.
pub open spec fn replaced(s: Seq<char>, c: char, with: Seq<char>) -> Seq<char>
    decreases s.len(),
{
    if s.len() == 0 {
        Seq::empty()
    } else {
        replaced(s.drop_last(), c, with) + (if s.last() == c {
            with
        } else {
            seq![s.last()]
        })
    }
}

/// `s` with `with` in place of each `c`.
pub fn replace_char(s: &str, c: char, with: &str) -> (r: String)
    ensures
        r@ == replaced(s@, c, with@),
{
    let v = chars_of(s);
    let mut out = String::new();
    for i in 0..v.len()
        invariant
            v@ == s@,
            out@ == replaced(s@.take(i as int), c, with@),
    {
        let ghost before = out@;
        if v[i] == c {
            out.append(with);
        } else {
            out.push(v[i]);
            assert(out@ =~= before + seq![v@[i as int]]);
        }
        assert(s@.take(i + 1).drop_last() =~= s@.take(i as int));
    }
    assert(s@.take(s@.len() as int) =~= s@);
    out
}

// ── Words ─────────────────────────────────────────────────────────────────────

/// The characters with Unicode's White_Space property.
pub open spec fn white_space(c: char) -> bool {
    ||| '\u{9}' <= c <= '\u{d}'
    ||| c == ' '
    ||| c == '\u{85}'
    ||| c == '\u{a0}'
    ||| c == '\u{1680}'
    ||| '\u{2000}' <= c <= '\u{200a}'
    ||| c == '\u{2028}'
    ||| c == '\u{2029}'
    ||| c == '\u{202f}'
    ||| c == '\u{205f}'
    ||| c == '\u{3000}'
}

/// Whether a character is white space.
pub fn is_white_space(c: char) -> (r: bool)
    ensures
        r == white_space(c),
{
    ('\u{9}' <= c && c <= '\u{d}') || c == ' ' || c == '\u{85}' || c == '\u{a0}' || c == '\u{1680}'
        || ('\u{2000}' <= c && c <= '\u{200a}') || c == '\u{2028}' || c == '\u{2029}' || c
        == '\u{202f}' || c == '\u{205f}' || c == '\u{3000}'
}

/// How many characters of `s`, from the first on, are (or are not) white space.
pub open spec fn run_len(s: Seq<char>, white: bool) -> int
    decreases s.len(),
{
    if s.len() == 0 || white_space(s[0]) != white {
        0
    } else {
        1 + run_len(s.drop_first(), white)
    }
}

/// The run ends where the first character of the other kind stands.
pub proof fn run_len_is(s: Seq<char>, white: bool, p: int)
    requires
        0 <= p <= s.len(),
        forall|i: int| 0 <= i < p ==> white_space(#[trigger] s[i]) == white,
        p < s.len() ==> white_space(s[p]) != white,
    ensures
        run_len(s, white) == p,
    decreases s.len(),
{
    if p > 0 {
        assert(white_space(s[0]) == white);
        let t = s.drop_first();
        assert forall|i: int| 0 <= i < p - 1 implies white_space(#[trigger] t[i]) == white by {
            assert(t[i] == s[i + 1]);
        }
        run_len_is(t, white, p - 1);
    }
}

/// A run is no longer than its text.
pub proof fn run_len_fits(s: Seq<char>, white: bool)
    ensures
        0 <= run_len(s, white) <= s.len(),
    decreases s.len(),
{
    if s.len() > 0 {
        run_len_fits(s.drop_first(), white);
    }
}

/// Where the run of white space (or of the rest) that starts at `from` ends.
pub fn run_end(v: &[char], from: usize, to: usize, white: bool) -> (r: usize)
    requires
        from <= to <= v@.len(),
    ensures
        from <= r <= to,
        r - from == run_len(v@.subrange(from as int, to as int), white),
        forall|i: int| from <= i < r ==> white_space(#[trigger] v@[i]) == white,
        r < to ==> white_space(v@[r as int]) != white,
{
    let mut i: usize = from;
    while i < to && is_white_space(v[i]) == white
        invariant
            from <= i <= to <= v@.len(),
            forall|j: int| from <= j < i ==> white_space(#[trigger] v@[j]) == white,
        decreases to - i,
    {
        i = i + 1;
    }
    proof {
        let s = v@.subrange(from as int, to as int);
        assert forall|j: int| 0 <= j < i - from implies white_space(#[trigger] s[j]) == white by {
            assert(s[j] == v@[from + j]);
        }
        run_len_is(s, white, i - from);
    }
    i
}

/// The words of a text: what its white space parts.
pub open spec fn words(s: Seq<char>) -> Seq<Seq<char>>
    decreases s.len(),
{
    proof {
        run_len_fits(s.drop_first(), false);
    }
    if s.len() == 0 {
        Seq::empty()
    } else if white_space(s[0]) {
        words(s.drop_first())
    } else {
        seq![s.take(run_len(s, false))] + words(s.skip(run_len(s, false)))
    }
}

/// All characters of a run are of its kind, and the next one is not.
pub proof fn run_len_ends(s: Seq<char>, white: bool)
    ensures
        0 <= run_len(s, white) <= s.len(),
        forall|i: int| 0 <= i < run_len(s, white) ==> white_space(#[trigger] s[i]) == white,
        run_len(s, white) < s.len() ==> white_space(s[run_len(s, white)]) != white,
    decreases s.len(),
{
    if s.len() > 0 && white_space(s[0]) == white {
        let t = s.drop_first();
        run_len_ends(t, white);
        assert forall|i: int| 0 <= i < run_len(s, white) implies white_space(#[trigger] s[i])
            == white by {
            if i > 0 {
                assert(s[i] == t[i - 1]);
            }
        }
        if run_len(s, white) < s.len() {
            assert(s[run_len(s, white)] == t[run_len(t, white)]);
        }
    }
}

/// White space behind a text does not change its words.
pub proof fn words_ignore_white_end(s: Seq<char>, c: char)
    requires
        white_space(c),
    ensures
        words(s.push(c)) == words(s),
    decreases s.len(),
{
    let e = s.push(c);
    if s.len() == 0 {
        assert(e.drop_first() =~= s);
    } else if white_space(s[0]) {
        assert(e.drop_first() =~= s.drop_first().push(c));
        words_ignore_white_end(s.drop_first(), c);
    } else {
        let n = run_len(s, false);
        run_len_ends(s, false);
        assert forall|i: int| 0 <= i < n implies white_space(#[trigger] e[i]) == false by {
            assert(e[i] == s[i]);
        }
        run_len_is(e, false, n);
        assert(e.take(n) =~= s.take(n));
        assert(e.skip(n) =~= s.skip(n).push(c));
        assert(n > 0) by {
            if n == 0 {
                assert(white_space(s[0]));
            }
        }
        words_ignore_white_end(s.skip(n), c);
    }
}

/// White space before a text does not change its words.
pub proof fn words_skip_white(s: Seq<char>)
    ensures
        words(s) == words(s.skip(run_len(s, true))),
    decreases s.len(),
{
    if s.len() > 0 && white_space(s[0]) {
        let t = s.drop_first();
        words_skip_white(t);
        run_len_fits(t, true);
        assert(t.skip(run_len(t, true)) =~= s.skip(run_len(s, true)));
    } else {
        assert(s.skip(0) =~= s);
    }
}

/// `s` without the white space at its end.
pub open spec fn trimmed_end(s: Seq<char>) -> Seq<char>
    decreases s.len(),
{
    if s.len() > 0 && white_space(s.last()) {
        trimmed_end(s.drop_last())
    } else {
        s
    }
}

/// `s` without the white space at its start and at its end.
pub open spec fn trimmed(s: Seq<char>) -> Seq<char> {
    trimmed_end(s.skip(run_len(s, true)))
}

/// A text without the white space at its start and at its end.
pub fn trim(s: &str) -> (r: String)
    ensures
        r@ == trimmed(s@),
{
    let v = chars_of(s);
    let n = v.len();
    assert(v@.subrange(0, n as int) =~= v@);
    let start = run_end(v.as_slice(), 0, n, true);
    let mut end: usize = n;
    assert(v@.subrange(start as int, n as int) =~= v@.skip(start as int));
    while end > start && is_white_space(v[end - 1])
        invariant
            start <= end <= n == v@.len(),
            trimmed_end(v@.skip(start as int)) == trimmed_end(
                v@.subrange(start as int, end as int),
            ),
        decreases end,
    {
        let ghost t = v@.subrange(start as int, end as int);
        assert(t.last() == v@[end - 1]);
        assert(t.drop_last() =~= v@.subrange(start as int, end - 1));
        end = end - 1;
    }
    proof {
        let t = v@.subrange(start as int, end as int);
        if end > start {
            assert(t.last() == v@[end - 1]);
        }
    }
    text_of(v.as_slice(), start, end)
}

/// A number written in decimal has no white space to trim.
pub proof fn decimal_is_trimmed(n: nat)
    ensures
        trimmed(decimal(n)) == decimal(n),
{
    decimal_reads_back(n);
    let d = decimal(n);
    assert('0' <= d[0] <= '9');
    assert(d.skip(0) =~= d);
    assert('0' <= d.last() <= '9');
}

// ── What texts promise ────────────────────────────────────────────────────────

/// A number in decimal has no leading zeros: it is never longer than it has to
/// be.
pub proof fn decimal_has_no_leading_zero(n: nat)
    requires
        n > 0,
    ensures
        decimal(n)[0] != '0',
    decreases n,
{
    if n >= 10 {
        decimal_has_no_leading_zero(n / 10);
        decimal_reads_back(n / 10);
    }
}

/// Leading zeros fill a number up to the width that is asked for, and are left
/// out where it is wider.
pub proof fn padding_fills_the_width(n: nat, width: nat)
    ensures
        has_suffix(padded(n, width), decimal(n)),
        decimal(n).len() <= width ==> padded(n, width).len() == width,
        decimal(n).len() >= width ==> padded(n, width) == decimal(n),
{
    let d = decimal(n);
    let p = padded(n, width);
    assert(p.skip(p.len() - d.len()) =~= d);
}

/// A text begins with another where it is that text and something more.
pub proof fn prefix_is_the_start(s: Seq<char>, prefix: Seq<char>, rest: Seq<char>)
    ensures
        has_prefix(prefix + rest, prefix),
        has_prefix(s, prefix) ==> s == prefix + s.skip(prefix.len() as int),
{
    assert((prefix + rest).take(prefix.len() as int) =~= prefix);
    if has_prefix(s, prefix) {
        assert(s =~= s.take(prefix.len() as int) + s.skip(prefix.len() as int));
    }
}

/// A text ends with another where it is something and that text.
pub proof fn suffix_is_the_end(s: Seq<char>, suffix: Seq<char>, rest: Seq<char>)
    ensures
        has_suffix(rest + suffix, suffix),
        has_suffix(s, suffix) ==> s == s.take(s.len() - suffix.len()) + suffix,
{
    assert((rest + suffix).skip(rest.len() as int) =~= suffix);
    if has_suffix(s, suffix) {
        assert(s =~= s.take(s.len() - suffix.len()) + s.skip(s.len() - suffix.len()));
    }
}

/// Small letters differ from what they were made of in nothing but the capital
/// letters, and making them small again changes nothing.
pub proof fn lowering_changes_only_capitals(s: Seq<char>, i: int)
    requires
        is_ascii_chars(s),
        0 <= i < s.len(),
    ensures
        lowered(s).len() == s.len(),
        !('A' <= lowered(s)[i] <= 'Z'),
        !('A' <= s[i] <= 'Z') ==> lowered(s)[i] == s[i],
        'A' <= s[i] <= 'Z' ==> lowered(s)[i] as int - 'a' as int == s[i] as int - 'A' as int,
{
}

/// Replacing goes character by character: each `c` becomes the other text, all
/// else stays.
pub proof fn replacing_goes_by_characters(
    a: Seq<char>,
    b: Seq<char>,
    x: char,
    c: char,
    with: Seq<char>,
)
    ensures
        replaced(a + b, c, with) == replaced(a, c, with) + replaced(b, c, with),
        replaced(seq![x], c, with) == (if x == c {
            with
        } else {
            seq![x]
        }),
    decreases b.len(),
{
    let none = Seq::<char>::empty();
    assert(replaced(none, c, with) =~= none);
    assert(seq![x].drop_last() =~= none);
    assert(none + with =~= with);
    assert(none + seq![x] =~= seq![x]);
    if b.len() == 0 {
        assert(a + b =~= a);
        assert(replaced(a, c, with) + replaced(b, c, with) =~= replaced(a, c, with));
    } else {
        replacing_goes_by_characters(a, b.drop_last(), x, c, with);
        assert((a + b).drop_last() =~= a + b.drop_last());
        assert(replaced(a + b, c, with) =~= replaced(a, c, with) + replaced(b, c, with));
    }
}

proof fn lemma_trimmed_end(s: Seq<char>)
    ensures
        trimmed_end(s).len() <= s.len(),
        trimmed_end(s) == s.take(trimmed_end(s).len() as int),
        trimmed_end(s).len() > 0 ==> !white_space(trimmed_end(s).last()),
        forall|i: int| trimmed_end(s).len() <= i < s.len() ==> white_space(#[trigger] s[i]),
    decreases s.len(),
{
    if s.len() > 0 && white_space(s.last()) {
        let t = s.drop_last();
        lemma_trimmed_end(t);
        let n = trimmed_end(s).len() as int;
        assert(s.take(n) =~= t.take(n));
        assert forall|i: int| n <= i < s.len() implies white_space(#[trigger] s[i]) by {
            if i < t.len() {
                assert(t[i] == s[i]);
            }
        }
    } else {
        assert(s.take(s.len() as int) =~= s);
    }
}

/// Trimming takes the white space at both ends and nothing else.
pub proof fn trimming_takes_only_white_ends(s: Seq<char>)
    ensures
        ({
            let t = trimmed(s);
            let start = run_len(s, true);
            &&& t == s.subrange(start, start + t.len())
            &&& forall|i: int| 0 <= i < start ==> white_space(#[trigger] s[i])
            &&& forall|i: int| start + t.len() <= i < s.len() ==> white_space(#[trigger] s[i])
            &&& t.len() > 0 ==> !white_space(t[0]) && !white_space(t.last())
        }),
{
    let start = run_len(s, true);
    run_len_ends(s, true);
    let rest = s.skip(start);
    lemma_trimmed_end(rest);
    let t = trimmed(s);
    assert(t =~= s.subrange(start, start + t.len()));
    assert forall|i: int| start + t.len() <= i < s.len() implies white_space(#[trigger] s[i]) by {
        assert(rest[i - start] == s[i]);
    }
    if t.len() > 0 {
        assert(t[0] == rest[0]);
        assert(rest[0] == s[start]);
    }
}

} // verus!
