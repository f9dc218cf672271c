//! What a web client asks for: the request line, its route, its query.

use vstd::prelude::*;
use vstd::utf8::*;

use crate::text;
use crate::text::{chars_of, find_char, run_end, show, str_eq, text_of, utf8_text};

verus! {

// ── Query strings ─────────────────────────────────────────────────────────────

/// The value of `key` in a query string: of the pairs that `&` parts, the first
/// whose text before its first `=` is the key.
pub open spec fn query_value(query: Seq<char>, key: Seq<char>) -> Option<Seq<char>>
    decreases query.len(),
{
    let pair = text::before_first(query, '&');
    if pair.contains('=') && text::before_first(pair, '=') == key {
        Some(text::after_first(pair, '='))
    } else if query.contains('&') {
        proof {
            text::find_first_finds(query, '&');
        }
        query_value(text::after_first(query, '&'), key)
    } else {
        None
    }
}

/// The raw value of a key in a query string, still percent-encoded.
pub fn query_param<'a>(query: &'a str, key: &str) -> (r: Option<&'a str>)
    ensures
        r is Some <==> query_value(query@, key@) is Some,
        r matches Some(v) ==> v@ == query_value(query@, key@)->0,
{
    let q = chars_of(query);
    let n = q.len();
    let mut i: usize = 0;
    assert(query@.skip(0) =~= query@);
    loop
        invariant
            i <= n == q@.len(),
            q@ == query@,
            query_value(query@, key@) == query_value(query@.skip(i as int), key@),
        decreases n - i,
    {
        let ghost rest = query@.skip(i as int);
        assert(q@.subrange(i as int, n as int) =~= rest);
        let end = find_char(q.as_slice(), i, n, '&');
        let eq = find_char(q.as_slice(), i, end, '=');
        let ghost pair = text::before_first(rest, '&');
        assert(q@.subrange(i as int, end as int) =~= pair);
        if eq < end {
            let k = text_of(q.as_slice(), i, eq);
            assert(k@ =~= text::before_first(pair, '='));
            if str_eq(k.as_str(), key) {
                assert(query@.subrange(eq + 1, end as int) =~= text::after_first(pair, '='));
                return Some(query.substring_char(eq + 1, end));
            }
        }
        if end == n {
            return None;
        }
        assert(query@.skip(end + 1) =~= text::after_first(rest, '&'));
        i = end + 1;
    }
}

/// The value of a key never holds the separator of the pairs.
pub proof fn query_value_is_one_pair(query: Seq<char>, key: Seq<char>)
    requires
        query_value(query, key) is Some,
    ensures
        !query_value(query, key)->0.contains('&'),
    decreases query.len(),
{
    text::find_first_finds(query, '&');
    let pair = text::before_first(query, '&');
    text::find_first_finds(pair, '=');
    if pair.contains('=') && text::before_first(pair, '=') == key {
        let v = text::after_first(pair, '=');
        if v.contains('&') {
            let k = choose|k: int| 0 <= k < v.len() && v[k] == '&';
            assert(query[text::find_first(pair, '=') + 1 + k] == '&');
        }
    } else {
        query_value_is_one_pair(text::after_first(query, '&'), key);
    }
}

/// The value of a key is that of the first pair with the key: pairs with other
/// keys before it, and all behind it, make no difference.
pub proof fn first_pair_with_the_key_decides(
    key: Seq<char>,
    value: Seq<char>,
    other: Seq<char>,
    rest: Seq<char>,
)
    requires
        !key.contains('='),
        !key.contains('&'),
        !value.contains('&'),
        !other.contains('='),
        !other.contains('&'),
        other != key,
    ensures
        query_value(key + seq!['='] + value, key) == Some(value),
        query_value(key + seq!['='] + value + seq!['&'] + rest, key) == Some(value),
        query_value(other + seq!['='] + value, key) is None,
        query_value(other + seq!['='] + value + seq!['&'] + rest, key) == query_value(rest, key),
        query_value(other, key) is None,
        query_value(other + seq!['&'] + rest, key) == query_value(rest, key),
{
    let none = Seq::<char>::empty();
    lemma_first_pair(key, value);
    lemma_first_pair(other, value);
    let mine = key + seq!['='] + value;
    let theirs = other + seq!['='] + value;
    lemma_pair_ends(mine, rest);
    lemma_pair_ends(theirs, rest);
    lemma_pair_ends(other, rest);
}

proof fn lemma_pair_ends(pair: Seq<char>, rest: Seq<char>)
    requires
        !pair.contains('&'),
    ensures
        text::before_first(pair, '&') == pair,
        !pair.contains('&'),
        text::before_first(pair + seq!['&'] + rest, '&') == pair,
        (pair + seq!['&'] + rest).contains('&'),
        text::after_first(pair + seq!['&'] + rest, '&') == rest,
{
    let n = pair.len() as int;
    let all = pair + seq!['&'] + rest;
    assert forall|i: int| 0 <= i < n implies pair[i] != '&' by {
        assert(pair.contains(pair[i]));
    }
    text::find_first_is(pair, '&', n);
    assert(text::before_first(pair, '&') =~= pair);
    assert forall|i: int| 0 <= i < n implies all[i] != '&' by {
        assert(all[i] == pair[i]);
    }
    text::find_first_is(all, '&', n);
    assert(text::before_first(all, '&') =~= pair);
    assert(text::after_first(all, '&') =~= rest);
}

proof fn lemma_first_pair(key: Seq<char>, value: Seq<char>)
    requires
        !key.contains('='),
        !key.contains('&'),
        !value.contains('&'),
    ensures
        ({
            let pair = key + seq!['='] + value;
            &&& !pair.contains('&')
            &&& pair.contains('=')
            &&& text::before_first(pair, '=') == key
            &&& text::after_first(pair, '=') == value
        }),
{
    let pair = key + seq!['='] + value;
    let n = key.len() as int;
    assert forall|i: int| 0 <= i < pair.len() implies pair[i] != '&' by {
        if i < n {
            assert(key.contains(key[i]));
        } else if i > n {
            assert(pair[i] == value[i - n - 1]);
            assert(value.contains(value[i - n - 1]));
        }
    }
    assert forall|i: int| 0 <= i < n implies pair[i] != '=' by {
        assert(key.contains(key[i]));
    }
    text::find_first_is(pair, '=', n);
    assert(text::before_first(pair, '=') =~= key);
    assert(text::after_first(pair, '=') =~= value);
}

// ── Percent-encoding ──────────────────────────────────────────────────────────

/// The value of a hexadecimal digit.
pub open spec fn hex_value(b: u8) -> Option<int> {
    if 48 <= b <= 57 {
        Some(b - 48)
    } else if 65 <= b <= 70 {
        Some(b - 55)
    } else if 97 <= b <= 102 {
        Some(b - 87)
    } else {
        None
    }
}

/// The number that two hexadecimal digits behind a `%` stand for.
pub open spec fn escape_value(a: u8, b: u8) -> Option<u8> {
    match (hex_value(a), hex_value(b)) {
        (Some(x), Some(y)) => Some((16 * x + y) as u8),
        _ => None,
    }
}

/// The bytes that percent-encoded bytes stand for: `+` is a space, `%` and two
/// hexadecimal digits are one byte, and all else is itself.
pub open spec fn percent_decoded(b: Seq<u8>) -> Seq<u8>
    decreases b.len(),
{
    if b.len() == 0 {
        Seq::empty()
    } else if b[0] == 43 {
        seq![32u8] + percent_decoded(b.skip(1))
    } else if b[0] == 37 && b.len() > 2 && escape_value(b[1], b[2]) is Some {
        seq![escape_value(b[1], b[2])->0] + percent_decoded(b.skip(3))
    } else {
        seq![b[0]] + percent_decoded(b.skip(1))
    }
}

fn hex_digit(b: u8) -> (r: Option<u8>)
    ensures
        r is Some <==> hex_value(b) is Some,
        r matches Some(d) ==> d == hex_value(b)->0 && d < 16,
{
    if 48 <= b && b <= 57 {
        Some(b - 48)
    } else if 65 <= b && b <= 70 {
        Some(b - 55)
    } else if 97 <= b && b <= 102 {
        Some(b - 87)
    } else {
        None
    }
}

fn escape(a: u8, b: u8) -> (r: Option<u8>)
    ensures
        r == escape_value(a, b),
{
    match (hex_digit(a), hex_digit(b)) {
        (Some(x), Some(y)) => Some(16 * x + y),
        _ => None,
    }
}

/// Decodes percent-encoded bytes.
pub fn percent_decode(bytes: &[u8]) -> (r: Vec<u8>)
    ensures
        r@ == percent_decoded(bytes@),
{
    let mut out: Vec<u8> = Vec::new();
    let n = bytes.len();
    let mut i: usize = 0;
    assert(bytes@.skip(0) =~= bytes@);
    while i < n
        invariant
            i <= n == bytes@.len(),
            percent_decoded(bytes@) =~= out@ + percent_decoded(bytes@.skip(i as int)),
        decreases n - i,
    {
        let ghost rest = bytes@.skip(i as int);
        let b = bytes[i];
        let mut step: usize = 1;
        let mut byte: u8 = b;
        if b == 43 {
            byte = 32;
        } else if b == 37 && n - i > 2 {
            if let Some(d) = escape(bytes[i + 1], bytes[i + 2]) {
                byte = d;
                step = 3;
            }
        }
        assert(rest.skip(step as int) =~= bytes@.skip(i + step));
        out.push(byte);
        i = i + step;
    }
    assert(bytes@.skip(n as int) =~= Seq::empty());
    out
}

/// Decodes a percent-encoded query value.
pub fn url_decode(s: &str) -> (r: String)
    ensures
        r@ == text::shown(percent_decoded(encode_utf8(s@))),
{
    let out = percent_decode(s.as_bytes());
    show(out.as_slice())
}

/// The bytes that a browser's `encodeURIComponent` leaves as they are.
pub open spec fn unreserved(b: u8) -> bool {
    ||| 48 <= b <= 57
    ||| 65 <= b <= 90
    ||| 97 <= b <= 122
    ||| b == 45 || b == 95 || b == 46 || b == 33 || b == 126 || b == 42 || b == 39 || b == 40 || b == 41
}

/// An upper-case hexadecimal digit.
pub open spec fn hex_char(d: int) -> u8 {
    if d < 10 {
        (48 + d) as u8
    } else {
        (55 + d) as u8
    }
}

/// What `encodeURIComponent` makes of the UTF-8 bytes of a text.
pub open spec fn uri_encoded(b: Seq<u8>) -> Seq<u8>
    decreases b.len(),
{
    if b.len() == 0 {
        Seq::empty()
    } else if unreserved(b[0]) {
        seq![b[0]] + uri_encoded(b.skip(1))
    } else {
        seq![37u8, hex_char(b[0] as int / 16), hex_char(b[0] as int % 16)] + uri_encoded(b.skip(1))
    }
}

/// Decoding undoes a browser's encoding, byte for byte.
pub proof fn decode_undoes_encoding(b: Seq<u8>)
    ensures
        percent_decoded(uri_encoded(b)) == b,
    decreases b.len(),
{
    if b.len() > 0 {
        decode_undoes_encoding(b.skip(1));
        let e = uri_encoded(b);
        let tail = uri_encoded(b.skip(1));
        if unreserved(b[0]) {
            assert(e.skip(1) =~= tail);
        } else {
            assert(e.skip(3) =~= tail);
            assert(escape_value(e[1], e[2]) == Some(b[0]));
        }
        assert(seq![b[0]] + b.skip(1) =~= b);
    } else {
        assert(percent_decoded(uri_encoded(b)) =~= b);
    }
}

/// Bytes without a `%` are decoded on their own, whatever stands behind them.
pub proof fn decoding_splits_behind_plain_bytes(a: Seq<u8>, b: Seq<u8>)
    requires
        !a.contains(37),
    ensures
        percent_decoded(a + b) == percent_decoded(a) + percent_decoded(b),
    decreases a.len(),
{
    if a.len() == 0 {
        assert(a + b =~= b);
        assert(percent_decoded(a) + percent_decoded(b) =~= percent_decoded(b));
    } else {
        let rest = a.skip(1);
        assert(a.contains(a[0]));
        assert forall|i: int| 0 <= i < rest.len() implies rest[i] != 37 by {
            assert(a.contains(a[i + 1]));
        }
        decoding_splits_behind_plain_bytes(rest, b);
        assert((a + b).skip(1) =~= rest + b);
        assert(percent_decoded(a + b) =~= percent_decoded(a) + percent_decoded(b));
    }
}

/// A hexadecimal digit in capital or small letters.
pub open spec fn hex_byte(d: int, capital: bool) -> u8 {
    if d < 10 {
        (48 + d) as u8
    } else if capital {
        (65 + d - 10) as u8
    } else {
        (97 + d - 10) as u8
    }
}

/// Decoding goes from escape to escape: a `%` and two hexadecimal digits, in
/// letters of either case, are the byte that they write; a plus sign is a space;
/// a `%` without two such digits behind it, and all else, stays as it is.
pub proof fn decoding_goes_by_escapes(n: u8, a: bool, b: bool, x: u8, rest: Seq<u8>)
    ensures
        percent_decoded(
            seq![37u8, hex_byte(n as int / 16, a), hex_byte(n as int % 16, b)] + rest,
        ) == seq![n] + percent_decoded(rest),
        percent_decoded(seq![43u8] + rest) == seq![32u8] + percent_decoded(rest),
        x != 43 && x != 37 ==> percent_decoded(seq![x] + rest) == seq![x] + percent_decoded(rest),
        !(rest.len() >= 2 && is_hex(rest[0]) && is_hex(rest[1])) ==> percent_decoded(
            seq![37u8] + rest,
        ) == seq![37u8] + percent_decoded(rest),
{
    let e = seq![37u8, hex_byte(n as int / 16, a), hex_byte(n as int % 16, b)] + rest;
    assert(e.skip(3) =~= rest);
    assert(escape_value(e[1], e[2]) == Some(n));
    assert((seq![43u8] + rest).skip(1) =~= rest);
    assert((seq![x] + rest).skip(1) =~= rest);
    let s = seq![37u8] + rest;
    assert(s.skip(1) =~= rest);
    if rest.len() >= 2 {
        assert(s[1] == rest[0] && s[2] == rest[1]);
    }
}

/// Whether a byte is a hexadecimal digit.
pub open spec fn is_hex(b: u8) -> bool {
    48 <= b <= 57 || 65 <= b <= 70 || 97 <= b <= 102
}

/// The path that a browser encodes into a query is the path that is looked up.
pub proof fn decoded_text_is_the_encoded_one(sent: Seq<char>, path: Seq<char>)
    requires
        encode_utf8(sent) == uri_encoded(encode_utf8(path)),
    ensures
        text::shown(percent_decoded(encode_utf8(sent))) == path,
{
    decode_undoes_encoding(encode_utf8(path));
    encode_utf8_valid_utf8(path);
    encode_utf8_decode_utf8(path);
}

// ── The request line ──────────────────────────────────────────────────────────

/// The method, the path and the query of a request.
pub struct Request {
    pub method: String,
    pub path: String,
    pub query: String,
}

/// The text of a request as it was read; none at all if it is not UTF-8.
pub open spec fn request_text(buf: Seq<u8>) -> Seq<char> {
    if valid_utf8(buf) {
        decode_utf8(buf)
    } else {
        Seq::empty()
    }
}

/// The words of the first line of a request. A carriage return at its end is
/// white space, and so no part of a word.
pub open spec fn request_words(buf: Seq<u8>) -> Seq<Seq<char>> {
    text::words(text::before_first(request_text(buf), '\n'))
}

/// The first word of a request, `GET` if there is none.
pub open spec fn request_method(buf: Seq<u8>) -> Seq<char> {
    let w = request_words(buf);
    if w.len() > 0 {
        w[0]
    } else {
        "GET"@
    }
}

/// The second word of a request, `/` if there is none.
pub open spec fn request_target(buf: Seq<u8>) -> Seq<char> {
    let w = request_words(buf);
    if w.len() > 1 {
        w[1]
    } else {
        "/"@
    }
}

/// What stands behind the first `?` of a request's target, if there is one.
pub open spec fn target_query(target: Seq<char>) -> Seq<char> {
    if target.contains('?') {
        text::after_first(target, '?')
    } else {
        Seq::empty()
    }
}

/// The first word among the characters from `from` up to `to`: its start and
/// its end, which are the same place if there is none.
fn next_word(v: &[char], from: usize, to: usize) -> (r: (usize, usize))
    requires
        from <= to <= v@.len(),
    ensures
        from <= r.0 <= r.1 <= to,
        r.0 == r.1 ==> text::words(v@.subrange(from as int, to as int)) == Seq::<Seq<char>>::empty(),
        r.0 < r.1 ==> text::words(v@.subrange(from as int, to as int)) == seq![
            v@.subrange(r.0 as int, r.1 as int),
        ] + text::words(v@.subrange(r.1 as int, to as int)),
{
    let start = run_end(v, from, to, true);
    let end = run_end(v, start, to, false);
    proof {
        let s = v@.subrange(from as int, to as int);
        text::words_skip_white(s);
        let t = v@.subrange(start as int, to as int);
        assert(s.skip(start - from) =~= t);
        if start < to {
            assert(t[0] == v@[start as int]);
            assert(t.take(end - start) =~= v@.subrange(start as int, end as int));
            assert(t.skip(end - start) =~= v@.subrange(end as int, to as int));
        }
    }
    (start, end)
}

/// Reads the request line out of what a client sent.
pub fn parse_request(buf: &[u8]) -> (r: Request)
    ensures
        r.method@ == request_method(buf@),
        r.path@ == text::before_first(request_target(buf@), '?'),
        r.query@ == target_query(request_target(buf@)),
{
    let request: &str = match utf8_text(buf) {
        Some(s) => s,
        None => {
            proof {
                reveal_strlit("");
            }
            assert(""@ =~= Seq::empty());
            ""
        },
    };
    let v = chars_of(request);
    let n = v.len();
    assert(v@.subrange(0, n as int) =~= v@);
    let eol = find_char(v.as_slice(), 0, n, '\n');
    let ghost line = text::before_first(v@, '\n');
    assert(v@.subrange(0, eol as int) =~= line);
    let (s0, e0) = next_word(v.as_slice(), 0, eol);
    let (s1, e1) = next_word(v.as_slice(), e0, eol);
    let ghost w = request_words(buf@);
    let method = if s0 < e0 {
        text_of(v.as_slice(), s0, e0)
    } else {
        "GET".to_owned()
    };
    let target = if s0 < e0 && s1 < e1 {
        text_of(v.as_slice(), s1, e1)
    } else {
        "/".to_owned()
    };
    proof {
        if s0 < e0 {
            assert(w[0] == method@);
            if s1 < e1 {
                assert(w[1] == target@);
            }
        }
    }
    let t = chars_of(target.as_str());
    let m = t.len();
    assert(t@.subrange(0, m as int) =~= t@);
    let mark = find_char(t.as_slice(), 0, m, '?');
    let path = text_of(t.as_slice(), 0, mark);
    assert(path@ =~= text::before_first(target@, '?'));
    let query = if mark < m {
        assert(t@.subrange(mark + 1, m as int) =~= text::after_first(target@, '?'));
        text_of(t.as_slice(), mark + 1, m)
    } else {
        String::new()
    };
    Request { method, path, query }
}

/// The line end that web clients send, a carriage return before the line feed,
/// reads like a line feed alone.
pub proof fn carriage_return_is_no_word(line: Seq<char>)
    ensures
        text::words(line.push('\r')) == text::words(line),
{
    text::words_ignore_white_end(line, '\r');
}

/// Whether a text has no white space in it.
pub open spec fn one_word(s: Seq<char>) -> bool {
    s.len() > 0 && forall|i: int| 0 <= i < s.len() ==> !text::white_space(#[trigger] s[i])
}

proof fn lemma_next_word(word: Seq<char>, tail: Seq<char>)
    requires
        one_word(word),
        tail.len() > 0,
        text::white_space(tail[0]),
    ensures
        text::words(word + tail) == seq![word] + text::words(tail.drop_first()),
{
    let s = word + tail;
    let n = word.len() as int;
    assert forall|i: int| 0 <= i < n implies text::white_space(#[trigger] s[i]) == false by {
        assert(s[i] == word[i]);
    }
    assert(s[n] == tail[0]);
    text::run_len_is(s, false, n);
    assert(s[0] == word[0]);
    assert(!text::white_space(s[0]));
    assert(s.take(n) =~= word);
    assert(s.skip(n) =~= tail);
    assert(text::words(tail) == text::words(tail.drop_first()));
}

/// What a client writes into its request line is what is read from it: the
/// method and the target, whatever follows them.
pub proof fn request_line_reads_back(
    method: Seq<char>,
    target: Seq<char>,
    version: Seq<char>,
    rest: Seq<char>,
)
    requires
        one_word(method),
        one_word(target),
        !version.contains('\n'),
    ensures
        ({
            let sent = encode_utf8(
                method + seq![' '] + target + seq![' '] + version + seq!['\r', '\n'] + rest,
            );
            request_method(sent) == method && request_target(sent) == target
        }),
{
    let tail = seq![' '] + version + seq!['\r'];
    let line = method + seq![' '] + target + tail;
    let all = method + seq![' '] + target + seq![' '] + version + seq!['\r', '\n'] + rest;
    let sent = encode_utf8(all);
    encode_utf8_valid_utf8(all);
    encode_utf8_decode_utf8(all);
    let n = line.len() as int;
    assert forall|i: int| 0 <= i < n implies all[i] != '\n' by {
        if i < method.len() {
            assert(all[i] == method[i]);
        } else if method.len() < i < method.len() + 1 + target.len() {
            assert(all[i] == target[i - method.len() - 1]);
        } else if method.len() + target.len() + 2 <= i < n - 1 {
            let k = i - method.len() - target.len() - 2;
            assert(all[i] == version[k]);
            assert(version.contains(version[k]));
        }
    }
    assert(all[n] == '\n');
    text::find_first_is(all, '\n', n);
    assert(text::before_first(all, '\n') =~= line);
    let after = target + tail;
    assert(line =~= method + (seq![' '] + after));
    lemma_next_word(method, seq![' '] + after);
    assert((seq![' '] + after).drop_first() =~= after);
    lemma_next_word(target, tail);
    let w = request_words(sent);
    assert(w[0] == method);
    assert(w[1] == target);
}

/// A target with a query falls into the path before the first question mark
/// and the query behind it.
pub proof fn target_splits_at_the_question_mark(path: Seq<char>, query: Seq<char>)
    requires
        !path.contains('?'),
    ensures
        text::before_first(path + seq!['?'] + query, '?') == path,
        target_query(path + seq!['?'] + query) == query,
        text::before_first(path, '?') == path,
        target_query(path) == Seq::<char>::empty(),
{
    let target = path + seq!['?'] + query;
    let n = path.len() as int;
    assert forall|i: int| 0 <= i < n implies target[i] != '?' by {
        assert(target[i] == path[i]);
        assert(path.contains(path[i]));
    }
    text::find_first_is(target, '?', n);
    assert(text::before_first(target, '?') =~= path);
    assert(text::after_first(target, '?') =~= query);
    assert forall|i: int| 0 <= i < n implies path[i] != '?' by {
        assert(path.contains(path[i]));
    }
    text::find_first_is(path, '?', n);
    assert(text::before_first(path, '?') =~= path);
}

// ── The body ──────────────────────────────────────────────────────────────────

/// Whether the blank line that ends the headers stands at `i`.
pub open spec fn blank_line_at(buf: Seq<u8>, i: int) -> bool {
    &&& 0 <= i
    &&& i + 4 <= buf.len()
    &&& buf[i] == 13
    &&& buf[i + 1] == 10
    &&& buf[i + 2] == 13
    &&& buf[i + 3] == 10
}

/// Where the body of a request starts: behind the first blank line at `from` or
/// later.
pub open spec fn body_start(buf: Seq<u8>, from: int) -> Option<int>
    decreases buf.len() - from,
{
    if from + 4 > buf.len() {
        None
    } else if blank_line_at(buf, from) {
        Some(from + 4)
    } else {
        body_start(buf, from + 1)
    }
}

/// The body of a request: all behind the blank line that ends its headers, if
/// there is one.
pub open spec fn request_body(buf: Seq<u8>) -> Option<Seq<u8>> {
    match body_start(buf, 0) {
        Some(at) => Some(buf.skip(at)),
        None => None,
    }
}

/// The body of a request, if its headers have ended.
pub fn body_of(buf: &[u8]) -> (r: Option<&[u8]>)
    ensures
        r is Some <==> request_body(buf@) is Some,
        r matches Some(body) ==> body@ == request_body(buf@)->0,
{
    let n = buf.len();
    let mut i: usize = 0;
    while n - i >= 4
        invariant
            i <= n == buf@.len(),
            body_start(buf@, 0) == body_start(buf@, i as int),
        decreases n - i,
    {
        if buf[i] == 13 && buf[i + 1] == 10 && buf[i + 2] == 13 && buf[i + 3] == 10 {
            assert(blank_line_at(buf@, i as int));
            assert(buf@.subrange(i + 4, n as int) =~= buf@.skip(i + 4));
            return Some(vstd::slice::slice_subrange(buf, i + 4, n));
        }
        i = i + 1;
    }
    None
}

proof fn lemma_body_start(buf: Seq<u8>, from: int, at: int)
    requires
        0 <= from <= at,
        blank_line_at(buf, at),
        forall|i: int| from <= i < at ==> !blank_line_at(buf, i),
    ensures
        body_start(buf, from) == Some(at + 4),
    decreases at - from,
{
    if from < at {
        lemma_body_start(buf, from + 1, at);
    }
}

/// The body that a client sends behind its headers is the one that is read,
/// whatever bytes it holds.
pub proof fn body_reads_back(head: Seq<u8>, body: Seq<u8>)
    requires
        forall|i: int| 0 <= i < head.len() ==> !blank_line_at(head + seq![13u8, 10, 13, 10], i),
    ensures
        request_body(head + seq![13u8, 10, 13, 10] + body) == Some(body),
{
    let framed = head + seq![13u8, 10, 13, 10];
    let buf = framed + body;
    let n = head.len() as int;
    assert forall|i: int| 0 <= i < n implies !blank_line_at(buf, i) by {
        assert(!blank_line_at(framed, i));
        if i + 4 <= framed.len() {
            assert(buf[i] == framed[i] && buf[i + 1] == framed[i + 1] && buf[i + 2] == framed[i + 2]
                && buf[i + 3] == framed[i + 3]);
        }
    }
    assert(blank_line_at(buf, n));
    lemma_body_start(buf, 0, n);
    assert(buf.skip(n + 4) =~= body);
}

// ── Routes ────────────────────────────────────────────────────────────────────

/// What the server offers.
#[derive(Clone, Copy, Debug, PartialEq, Eq, Structural)]
pub enum Route {
    Index,
    Control,
    Mjpeg,
    State,
    Capture,
    RecordStart,
    RecordStop,
    Settings,
    GalleryList,
    GalleryFile,
    GalleryDelete,
    NotFound,
}

/// Which route serves a method and a path.
pub open spec fn route_of(method: Seq<char>, path: Seq<char>) -> Route {
    if method == "GET"@ {
        if path == "/"@ {
            Route::Index
        } else if path == "/control"@ {
            Route::Control
        } else if path == "/stream"@ || path == "/stream.mjpg"@ || path == "/mjpeg"@ {
            Route::Mjpeg
        } else if path == "/api/state"@ {
            Route::State
        } else if path == "/api/gallery"@ {
            Route::GalleryList
        } else if path == "/api/gallery/file"@ {
            Route::GalleryFile
        } else {
            Route::NotFound
        }
    } else if method == "POST"@ {
        if path == "/api/capture"@ {
            Route::Capture
        } else if path == "/api/record/start"@ {
            Route::RecordStart
        } else if path == "/api/record/stop"@ {
            Route::RecordStop
        } else if path == "/api/settings"@ {
            Route::Settings
        } else {
            Route::NotFound
        }
    } else if method == "DELETE"@ && path == "/api/gallery/file"@ {
        Route::GalleryDelete
    } else {
        Route::NotFound
    }
}

/// Finds the route of a request.
pub fn route(method: &str, path: &str) -> (r: Route)
    ensures
        r == route_of(method@, path@),
{
    if str_eq(method, "GET") {
        if str_eq(path, "/") {
            Route::Index
        } else if str_eq(path, "/control") {
            Route::Control
        } else if str_eq(path, "/stream") || str_eq(path, "/stream.mjpg") || str_eq(path, "/mjpeg") {
            Route::Mjpeg
        } else if str_eq(path, "/api/state") {
            Route::State
        } else if str_eq(path, "/api/gallery") {
            Route::GalleryList
        } else if str_eq(path, "/api/gallery/file") {
            Route::GalleryFile
        } else {
            Route::NotFound
        }
    } else if str_eq(method, "POST") {
        if str_eq(path, "/api/capture") {
            Route::Capture
        } else if str_eq(path, "/api/record/start") {
            Route::RecordStart
        } else if str_eq(path, "/api/record/stop") {
            Route::RecordStop
        } else if str_eq(path, "/api/settings") {
            Route::Settings
        } else {
            Route::NotFound
        }
    } else if str_eq(method, "DELETE") && str_eq(path, "/api/gallery/file") {
        Route::GalleryDelete
    } else {
        Route::NotFound
    }
}

/// The route of what a client sent, and its query.
pub fn serve_client(buf: &[u8]) -> (r: (Route, String))
    ensures
        r.0 == route_of(
            request_method(buf@),
            text::before_first(request_target(buf@), '?'),
        ),
        r.1@ == target_query(request_target(buf@)),
{
    let request = parse_request(buf);
    (route(request.method.as_str(), request.path.as_str()), request.query)
}

/// Every route has its own method and paths, and nothing else leads to it:
/// reading is by `GET`, acting by `POST`, deleting by `DELETE`.
pub proof fn routes_have_their_own_requests(method: Seq<char>, path: Seq<char>)
    ensures
        route_of(method, path) == Route::Index <==> method == "GET"@ && path == "/"@,
        route_of(method, path) == Route::Control <==> method == "GET"@ && path == "/control"@,
        route_of(method, path) == Route::Mjpeg <==> method == "GET"@ && (path == "/stream"@ || path
            == "/stream.mjpg"@ || path == "/mjpeg"@),
        route_of(method, path) == Route::State <==> method == "GET"@ && path == "/api/state"@,
        route_of(method, path) == Route::GalleryList <==> method == "GET"@ && path
            == "/api/gallery"@,
        route_of(method, path) == Route::GalleryFile <==> method == "GET"@ && path
            == "/api/gallery/file"@,
        route_of(method, path) == Route::Capture <==> method == "POST"@ && path == "/api/capture"@,
        route_of(method, path) == Route::RecordStart <==> method == "POST"@ && path
            == "/api/record/start"@,
        route_of(method, path) == Route::RecordStop <==> method == "POST"@ && path
            == "/api/record/stop"@,
        route_of(method, path) == Route::Settings <==> method == "POST"@ && path
            == "/api/settings"@,
        route_of(method, path) == Route::GalleryDelete <==> method == "DELETE"@ && path
            == "/api/gallery/file"@,
{
    reveal_strlit("GET");
    reveal_strlit("POST");
    reveal_strlit("DELETE");
    reveal_strlit("/");
    reveal_strlit("/control");
    reveal_strlit("/stream");
    reveal_strlit("/stream.mjpg");
    reveal_strlit("/mjpeg");
    reveal_strlit("/api/state");
    reveal_strlit("/api/gallery");
    reveal_strlit("/api/gallery/file");
    reveal_strlit("/api/capture");
    reveal_strlit("/api/record/start");
    reveal_strlit("/api/record/stop");
    reveal_strlit("/api/settings");
    assert("GET"@.len() == 3 && "POST"@.len() == 4 && "DELETE"@.len() == 6);
    assert("/"@.len() == 1 && "/control"@.len() == 8 && "/stream"@.len() == 7);
    assert("/stream.mjpg"@.len() == 12 && "/stream.mjpg"@[1] == 's' && "/mjpeg"@.len() == 6);
    assert("/api/state"@.len() == 10 && "/api/gallery"@.len() == 12 && "/api/gallery"@[1] == 'a');
    assert("/api/gallery/file"@.len() == 17 && "/api/gallery/file"@[5] == 'g');
    assert("/api/capture"@.len() == 12 && "/api/record/start"@.len() == 17);
    assert("/api/record/start"@[5] == 'r' && "/api/record/stop"@.len() == 16);
    assert("/api/settings"@.len() == 13);
}

/// A client is served by the method, the path and the query of its request line.
pub proof fn clients_are_served_by_their_requests(
    buf: &[u8],
    method: Seq<char>,
    path: Seq<char>,
    query: Seq<char>,
    version: Seq<char>,
    rest: Seq<char>,
    r: (Route, String),
)
    requires
        call_ensures(serve_client, (buf,), r),
        one_word(method),
        one_word(path),
        !path.contains('?'),
        forall|i: int| 0 <= i < query.len() ==> !text::white_space(#[trigger] query[i]),
        !version.contains('\n'),
        buf@ == encode_utf8(
            method + seq![' '] + (path + seq!['?'] + query) + seq![' '] + version + seq!['\r', '\n']
                + rest,
        ),
    ensures
        r.0 == route_of(method, path),
        r.1@ == query,
{
    let target = path + seq!['?'] + query;
    assert forall|i: int| 0 <= i < target.len() implies !text::white_space(#[trigger] target[i]) by {
        if i < path.len() {
            assert(target[i] == path[i]);
        } else if i > path.len() {
            assert(target[i] == query[i - path.len() - 1]);
        }
    }
    request_line_reads_back(method, target, version, rest);
    target_splits_at_the_question_mark(path, query);
}

} // verus!
