//! What the web companion answers: status lines, headers, JSON bodies.

use vstd::prelude::*;
use vstd::utf8::*;

use crate::text;
use crate::text::{dec, replace_char};

verus! {

// ── Framing ───────────────────────────────────────────────────────────────────

/// An HTML page with its headers. The length that they state is in bytes.
pub open spec fn html_reply(body: Seq<char>) -> Seq<char> {
    "HTTP/1.0 200 OK\r\nContent-Type: text/html; charset=utf-8\r\nContent-Length: "@
        + text::decimal(encode_utf8(body).len())
        + "\r\nCache-Control: no-cache\r\nConnection: close\r\n\r\n"@ + body
}

/// Frames an HTML page.
pub fn serve_html(body: &str) -> (r: String)
    ensures
        r@ == html_reply(body@),
{
    let mut s =
        "HTTP/1.0 200 OK\r\nContent-Type: text/html; charset=utf-8\r\nContent-Length: ".to_owned();
    let len = dec(body.as_bytes().len() as u128);
    s.append(len.as_str());
    s.append("\r\nCache-Control: no-cache\r\nConnection: close\r\n\r\n");
    s.append(body);
    s
}

/// The reply to a request for what is not there.
pub open spec fn not_found_reply() -> Seq<char> {
    "HTTP/1.0 404 Not Found\r\nContent-Type: text/plain\r\nContent-Length: "@ + text::decimal(
        encode_utf8("404 Not Found\n"@).len(),
    ) + "\r\nConnection: close\r\n\r\n"@ + "404 Not Found\n"@
}

/// Says that there is no such thing.
pub fn serve_404() -> (r: String)
    ensures
        r@ == not_found_reply(),
{
    let body = "404 Not Found\n";
    let mut s =
        "HTTP/1.0 404 Not Found\r\nContent-Type: text/plain\r\nContent-Length: ".to_owned();
    let len = dec(body.as_bytes().len() as u128);
    s.append(len.as_str());
    s.append("\r\nConnection: close\r\n\r\n");
    s.append(body);
    s
}

/// The words behind a status number.
pub open spec fn status_text(status: u16) -> Seq<char> {
    if status == 409 {
        "Conflict"@
    } else if status == 500 {
        "Internal Server Error"@
    } else if status == 503 {
        "Service Unavailable"@
    } else {
        "OK"@
    }
}

/// A JSON body with its status and headers. The length that they state is in
/// bytes.
pub open spec fn json_reply(status: u16, body: Seq<char>) -> Seq<char> {
    "HTTP/1.0 "@ + text::decimal(status as nat) + " "@ + status_text(status)
        + "\r\nContent-Type: application/json\r\nContent-Length: "@ + text::decimal(
        encode_utf8(body).len(),
    )
        + "\r\nCache-Control: no-cache\r\nAccess-Control-Allow-Origin: *\r\nConnection: close\r\n\r\n"@
        + body
}

/// Frames a JSON body.
pub fn serve_json(status: u16, body: &str) -> (r: String)
    ensures
        r@ == json_reply(status, body@),
{
    let mut s = "HTTP/1.0 ".to_owned();
    let number = dec(status as u128);
    s.append(number.as_str());
    s.append(" ");
    if status == 409 {
        s.append("Conflict");
    } else if status == 500 {
        s.append("Internal Server Error");
    } else if status == 503 {
        s.append("Service Unavailable");
    } else {
        s.append("OK");
    }
    s.append("\r\nContent-Type: application/json\r\nContent-Length: ");
    let len = dec(body.as_bytes().len() as u128);
    s.append(len.as_str());
    s.append(
        "\r\nCache-Control: no-cache\r\nAccess-Control-Allow-Origin: *\r\nConnection: close\r\n\r\n",
    );
    s.append(body);
    s
}

// ── JSON strings ──────────────────────────────────────────────────────────────

/// A text between the quotes of a JSON string: a backslash stands before each
/// backslash and each quote.
pub open spec fn json_escaped(s: Seq<char>) -> Seq<char> {
    text::replaced(text::replaced(s, '\\', "\\\\"@), '"', "\\\""@)
}

/// Escapes a text for a JSON string.
pub fn json_escape(s: &str) -> (r: String)
    ensures
        r@ == json_escaped(s@),
{
    let slashes = replace_char(s, '\\', "\\\\");
    replace_char(slashes.as_str(), '"', "\\\"")
}

/// Whether a text holds no control characters.
pub open spec fn no_controls(s: Seq<char>) -> bool {
    forall|i: int| 0 <= i < s.len() ==> #[trigger] s[i] >= ' '
}

/// The text that a JSON string holds whose characters between the quotes are
/// `t`; none if a bare quote ends the string early, if a backslash stands before
/// anything but a backslash or a quote, or if `t` holds a control character.
pub open spec fn json_unescaped(t: Seq<char>) -> Option<Seq<char>>
    decreases t.len(),
{
    if t.len() == 0 {
        Some(Seq::empty())
    } else if t[0] == '"' || ' ' > t[0] {
        None
    } else if t[0] == '\\' {
        if t.len() > 1 && (t[1] == '\\' || t[1] == '"') {
            match json_unescaped(t.skip(2)) {
                Some(rest) => Some(seq![t[1]] + rest),
                None => None,
            }
        } else {
            None
        }
    } else {
        match json_unescaped(t.skip(1)) {
            Some(rest) => Some(seq![t[0]] + rest),
            None => None,
        }
    }
}

proof fn lemma_unescape_concat(a: Seq<char>, b: Seq<char>)
    requires
        json_unescaped(a) is Some,
        json_unescaped(b) is Some,
    ensures
        json_unescaped(a + b) == Some(json_unescaped(a)->0 + json_unescaped(b)->0),
    decreases a.len(),
{
    if a.len() == 0 {
        assert(a + b =~= b);
        assert(json_unescaped(a)->0 + json_unescaped(b)->0 =~= json_unescaped(b)->0);
    } else if a[0] == '\\' {
        lemma_unescape_concat(a.skip(2), b);
        assert((a + b).skip(2) =~= a.skip(2) + b);
        assert(seq![a[1]] + (json_unescaped(a.skip(2))->0 + json_unescaped(b)->0) =~= seq![a[1]]
            + json_unescaped(a.skip(2))->0 + json_unescaped(b)->0);
    } else {
        lemma_unescape_concat(a.skip(1), b);
        assert((a + b).skip(1) =~= a.skip(1) + b);
        assert(seq![a[0]] + (json_unescaped(a.skip(1))->0 + json_unescaped(b)->0) =~= seq![a[0]]
            + json_unescaped(a.skip(1))->0 + json_unescaped(b)->0);
    }
}

proof fn lemma_replaced_concat(a: Seq<char>, b: Seq<char>, c: char, with: Seq<char>)
    ensures
        text::replaced(a + b, c, with) == text::replaced(a, c, with) + text::replaced(b, c, with),
    decreases b.len(),
{
    if b.len() == 0 {
        assert(a + b =~= a);
        assert(text::replaced(a, c, with) + text::replaced(b, c, with) =~= text::replaced(
            a,
            c,
            with,
        ));
    } else {
        assert((a + b).drop_last() =~= a + b.drop_last());
        lemma_replaced_concat(a, b.drop_last(), c, with);
        assert(text::replaced(a + b, c, with) =~= text::replaced(a, c, with) + text::replaced(
            b,
            c,
            with,
        ));
    }
}

proof fn lemma_replaced_one(x: char, c: char, with: Seq<char>)
    ensures
        text::replaced(seq![x], c, with) == (if x == c {
            with
        } else {
            seq![x]
        }),
{
    assert(seq![x].drop_last() =~= Seq::<char>::empty());
    assert(text::replaced(Seq::<char>::empty(), c, with) =~= Seq::<char>::empty());
    assert(Seq::<char>::empty() + with =~= with);
    assert(Seq::<char>::empty() + seq![x] =~= seq![x]);
}

proof fn lemma_escape_one(x: char)
    requires
        x >= ' ',
    ensures
        json_unescaped(json_escaped(seq![x])) == Some(seq![x]),
{
    reveal_strlit("\\\\");
    reveal_strlit("\\\"");
    lemma_replaced_one(x, '\\', "\\\\"@);
    let e = json_escaped(seq![x]);
    let none = Seq::<char>::empty();
    assert(json_unescaped(none) == Some(none));
    if x == '\\' {
        assert("\\\\"@ =~= seq!['\\'] + seq!['\\']);
        lemma_replaced_concat(seq!['\\'], seq!['\\'], '"', "\\\""@);
        lemma_replaced_one('\\', '"', "\\\""@);
        assert(e =~= seq!['\\', '\\']);
        assert(e.skip(2) =~= none);
    } else {
        lemma_replaced_one(x, '"', "\\\""@);
        if x == '"' {
            assert(e =~= seq!['\\', '"']);
            assert(e.skip(2) =~= none);
        } else {
            assert(e.skip(1) =~= none);
        }
    }
    assert(seq![x] + none =~= seq![x]);
}

/// Reading an escaped text without control characters as a JSON string gives the
/// text back, whatever quotes and backslashes it holds.
pub proof fn json_escape_reads_back(s: Seq<char>)
    requires
        no_controls(s),
    ensures
        json_unescaped(json_escaped(s)) == Some(s),
    decreases s.len(),
{
    if s.len() == 0 {
        assert(json_escaped(s) =~= Seq::<char>::empty());
        assert(json_unescaped(json_escaped(s))->0 =~= s);
    } else {
        let head = s.drop_last();
        let last = seq![s.last()];
        assert(s =~= head + last);
        json_escape_reads_back(head);
        lemma_escape_one(s.last());
        lemma_replaced_concat(head, last, '\\', "\\\\"@);
        lemma_replaced_concat(
            text::replaced(head, '\\', "\\\\"@),
            text::replaced(last, '\\', "\\\\"@),
            '"',
            "\\\""@,
        );
        lemma_unescape_concat(json_escaped(head), json_escaped(last));
    }
}

// ── What replies promise ──────────────────────────────────────────────────────

/// Whether a reply is framed as web clients read it: a start with the status, the
/// type of its content, the length of its body in bytes, a blank line, and the
/// body.
pub open spec fn framed(
    reply: Seq<char>,
    status: Seq<char>,
    kind: Seq<char>,
    body: Seq<char>,
) -> bool {
    exists|a: Seq<char>, b: Seq<char>|
        {
            &&& reply == #[trigger] (a + text::decimal(encode_utf8(body).len()) + b + body)
            &&& text::has_prefix(a, "HTTP/1.0 "@ + status + "\r\n"@)
            &&& text::has_suffix(a, "\r\nContent-Type: "@ + kind + "\r\nContent-Length: "@)
            &&& text::has_prefix(b, "\r\n"@)
            &&& text::has_suffix(b, "\r\n\r\n"@)
        }
}

/// Every reply says how long its body is, and of which kind, and has its status
/// at its start.
pub proof fn replies_are_framed(status: u16, body: Seq<char>)
    ensures
        framed(
            json_reply(status, body),
            text::decimal(status as nat) + " "@ + status_text(status),
            "application/json"@,
            body,
        ),
        framed(html_reply(body), "200 OK"@, "text/html; charset=utf-8"@, body),
        framed(not_found_reply(), "404 Not Found"@, "text/plain"@, "404 Not Found\n"@),
{
    lemma_json_is_framed(status, body);
    lemma_html_is_framed(body);
    lemma_404_is_framed();
}

proof fn lemma_json_is_framed(status: u16, body: Seq<char>)
    ensures
        framed(
            json_reply(status, body),
            text::decimal(status as nat) + " "@ + status_text(status),
            "application/json"@,
            body,
        ),
{
    let line = text::decimal(status as nat) + " "@ + status_text(status);
    let kind = "\r\nContent-Type: application/json\r\nContent-Length: "@;
    let tail =
        "\r\nCache-Control: no-cache\r\nAccess-Control-Allow-Origin: *\r\nConnection: close\r\n\r\n"@;
    let n = text::decimal(encode_utf8(body).len());
    let a = "HTTP/1.0 "@ + line + kind;
    reveal_strlit("\r\n");
    reveal_strlit("\r\n\r\n");
    reveal_strlit("application/json");
    reveal_strlit("\r\nContent-Type: ");
    reveal_strlit("\r\nContent-Length: ");
    reveal_strlit("\r\nContent-Type: application/json\r\nContent-Length: ");
    reveal_strlit(
        "\r\nCache-Control: no-cache\r\nAccess-Control-Allow-Origin: *\r\nConnection: close\r\n\r\n",
    );
    assert("\r\nContent-Type: "@ + "application/json"@ + "\r\nContent-Length: "@ =~= kind);
    text::suffix_is_the_end(a, kind, "HTTP/1.0 "@ + line);
    assert(a.take(("HTTP/1.0 "@ + line + "\r\n"@).len() as int) =~= "HTTP/1.0 "@ + line + "\r\n"@);
    assert(tail.take(2) =~= "\r\n"@);
    assert(tail.skip(tail.len() - 4) =~= "\r\n\r\n"@);
    assert(json_reply(status, body) =~= a + n + tail + body);
}

proof fn lemma_html_is_framed(body: Seq<char>)
    ensures
        framed(html_reply(body), "200 OK"@, "text/html; charset=utf-8"@, body),
{
    let a = "HTTP/1.0 200 OK\r\nContent-Type: text/html; charset=utf-8\r\nContent-Length: "@;
    let tail = "\r\nCache-Control: no-cache\r\nConnection: close\r\n\r\n"@;
    let kind = "\r\nContent-Type: "@ + "text/html; charset=utf-8"@ + "\r\nContent-Length: "@;
    let start = "HTTP/1.0 "@ + "200 OK"@ + "\r\n"@;
    let n = text::decimal(encode_utf8(body).len());
    reveal_strlit("HTTP/1.0 ");
    reveal_strlit("200 OK");
    reveal_strlit("text/html; charset=utf-8");
    reveal_strlit("\r\n");
    reveal_strlit("\r\n\r\n");
    reveal_strlit("\r\nContent-Type: ");
    reveal_strlit("\r\nContent-Length: ");
    reveal_strlit("HTTP/1.0 200 OK\r\nContent-Type: text/html; charset=utf-8\r\nContent-Length: ");
    reveal_strlit("\r\nCache-Control: no-cache\r\nConnection: close\r\n\r\n");
    assert(a.take(start.len() as int) =~= start);
    assert(a.skip(a.len() - kind.len()) =~= kind);
    assert(tail.take(2) =~= "\r\n"@);
    assert(tail.skip(tail.len() - 4) =~= "\r\n\r\n"@);
    assert(html_reply(body) == a + n + tail + body);
}

proof fn lemma_404_is_framed()
    ensures
        framed(not_found_reply(), "404 Not Found"@, "text/plain"@, "404 Not Found\n"@),
{
    let body = "404 Not Found\n"@;
    let a = "HTTP/1.0 404 Not Found\r\nContent-Type: text/plain\r\nContent-Length: "@;
    let tail = "\r\nConnection: close\r\n\r\n"@;
    let kind = "\r\nContent-Type: "@ + "text/plain"@ + "\r\nContent-Length: "@;
    let start = "HTTP/1.0 "@ + "404 Not Found"@ + "\r\n"@;
    let n = text::decimal(encode_utf8(body).len());
    reveal_strlit("HTTP/1.0 ");
    reveal_strlit("404 Not Found");
    reveal_strlit("text/plain");
    reveal_strlit("\r\n");
    reveal_strlit("\r\n\r\n");
    reveal_strlit("\r\nContent-Type: ");
    reveal_strlit("\r\nContent-Length: ");
    reveal_strlit("HTTP/1.0 404 Not Found\r\nContent-Type: text/plain\r\nContent-Length: ");
    reveal_strlit("\r\nConnection: close\r\n\r\n");
    assert(a.take(start.len() as int) =~= start);
    assert(a.skip(a.len() - kind.len()) =~= kind);
    assert(tail.take(2) =~= "\r\n"@);
    assert(tail.skip(tail.len() - 4) =~= "\r\n\r\n"@);
    assert(not_found_reply() == a + n + tail + body);
}

} // verus!
