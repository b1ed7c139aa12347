//! The text side of an HTTP relay in front of a Monero daemon: reading the
//! method and path of a request, and framing a JSON reply.
use vstd::prelude::*;
use vstd::string::{StrSliceExecFns, StringExecFns};
use vstd::utf8::encode_utf8;

verus! {

/// The text that `String::from_utf8_lossy` makes of some bytes.
pub uninterp spec fn utf8_lossy_of(bytes: Seq<u8>) -> Seq<char>;

/// Relies on String::from_utf8_lossy: the text is a function of the bytes,
/// with each invalid sequence replaced by U+FFFD.
#[verifier::external_body]
fn lossy_utf8(bytes: &[u8]) -> (r: String)
    ensures
        r@ == utf8_lossy_of(bytes@),
{
    String::from_utf8_lossy(bytes).into_owned()
}

/// The request bytes read as text.
pub fn stringify_request(buffer: &[u8]) -> (r: String)
    ensures
        r@ == utf8_lossy_of(buffer@),
{
    lossy_utf8(buffer)
}

/// Unicode white space, as `char::is_whitespace` documents it.
pub open spec fn is_whitespace(c: char) -> bool {
    ||| '\t' <= c <= '\r'
    ||| c == ' '
    ||| c == '\u{85}'
    ||| c == '\u{a0}'
    ||| c == '\u{1680}'
    ||| '\u{2000}' <= c <= '\u{200a}'
    ||| c == '\u{2028}'
    ||| c == '\u{2029}'
    ||| c == '\u{202f}'
    ||| c == '\u{205f}'
    ||| c == '\u{3000}'
}

fn is_whitespace_char(c: char) -> (r: bool)
    ensures
        r == is_whitespace(c),
{
    ('\t' <= c && c <= '\r') || c == ' ' || c == '\u{85}' || c == '\u{a0}' || c == '\u{1680}' || (
    '\u{2000}' <= c && c <= '\u{200a}') || c == '\u{2028}' || c == '\u{2029}' || c == '\u{202f}'
        || c == '\u{205f}' || c == '\u{3000}'
}

/// Position of the first line feed, or the length when there is none.
pub open spec fn newline_pos(s: Seq<char>) -> nat
    decreases s.len(),
{
    if s.len() == 0 || s[0] == '\n' {
        0
    } else {
        1 + newline_pos(s.skip(1))
    }
}

/// The first line of a text, without its line ending (`\n` or `\r\n`);
/// `None` for the empty text, which has no lines.
pub open spec fn first_line(s: Seq<char>) -> Option<Seq<char>> {
    if s.len() == 0 {
        None
    } else {
        let k = newline_pos(s) as int;
        if k < s.len() && k > 0 && s[k - 1] == '\r' {
            Some(s.take(k - 1))
        } else {
            Some(s.take(k))
        }
    }
}

/// Length of the run of non-white-space characters that starts the text.
pub open spec fn token_len(s: Seq<char>) -> nat
    decreases s.len(),
{
    if s.len() == 0 || is_whitespace(s[0]) {
        0
    } else {
        1 + token_len(s.skip(1))
    }
}

/// The white-space separated words of a text.
pub open spec fn tokens(s: Seq<char>) -> Seq<Seq<char>>
    decreases s.len(),
    via tokens_decreases
{
    if s.len() == 0 {
        Seq::empty()
    } else if is_whitespace(s[0]) {
        tokens(s.skip(1))
    } else {
        let k = token_len(s);
        seq![s.take(k as int)] + tokens(s.skip(k as int))
    }
}

#[via_fn]
proof fn tokens_decreases(s: Seq<char>) {
    if s.len() > 0 && !is_whitespace(s[0]) {
        lemma_token_len_bound(s);
    }
}

/// The `n`-th word of the first line of `text`, if there is one.
pub open spec fn request_word(text: Seq<char>, n: nat) -> Option<Seq<char>> {
    match first_line(text) {
        None => None,
        Some(line) => if n < tokens(line).len() {
            Some(tokens(line)[n as int])
        } else {
            None
        },
    }
}

proof fn lemma_token_len_bound(s: Seq<char>)
    ensures
        token_len(s) <= s.len(),
        s.len() > 0 && !is_whitespace(s[0]) ==> token_len(s) > 0,
    decreases s.len(),
{
    if s.len() > 0 && !is_whitespace(s[0]) {
        lemma_token_len_bound(s.skip(1));
    }
}

fn line_end(s: &str) -> (r: usize)
    requires
        s@.len() > 0,
    ensures
        r == newline_pos(s@),
        r <= s@.len(),
{
    let n = s.unicode_len();
    let mut i: usize = 0;
    assert(s@.skip(0) =~= s@);
    while i < n
        invariant
            n == s@.len(),
            i <= n,
            newline_pos(s@) == i + newline_pos(s@.skip(i as int)),
        decreases n - i,
    {
        if s.get_char(i) == '\n' {
            return i;
        }
        assert(s@.skip(i as int).skip(1) =~= s@.skip(i + 1 as int));
        i = i + 1;
    }
    i
}

fn take_first_line(text: &str) -> (r: Option<String>)
    ensures
        match r {
            None => first_line(text@) is None,
            Some(l) => first_line(text@) == Some(l@),
        },
{
    if text.unicode_len() == 0 {
        return None;
    }
    let k = line_end(text);
    if k < text.unicode_len() && k > 0 && text.get_char(k - 1) == '\r' {
        Some(String::from_str(text.substring_char(0, k - 1)))
    } else {
        Some(String::from_str(text.substring_char(0, k)))
    }
}

fn nth_token(line: &str, n: usize) -> (r: Option<String>)
    ensures
        match r {
            None => n >= tokens(line@).len(),
            Some(t) => n < tokens(line@).len() && tokens(line@)[n as int] == t@,
        },
{
    let ghost s = line@;
    let len = line.unicode_len();
    let mut i: usize = 0;
    let mut count: usize = 0;
    assert(s.skip(0) =~= s);
    while i < len
        invariant
            len == s.len(),
            s == line@,
            i <= len,
            count <= n,
            tokens(s).len() == count + tokens(s.skip(i as int)).len(),
            forall|k: int|
                0 <= k < tokens(s.skip(i as int)).len() ==> tokens(s)[count + k] == tokens(
                    s.skip(i as int),
                )[k],
        decreases len - i,
    {
        let ghost t = s.skip(i as int);
        assert(t[0] == s[i as int]);
        assert(t.skip(1) =~= s.skip(i + 1 as int));
        if is_whitespace_char(line.get_char(i)) {
            assert(tokens(t) == tokens(s.skip(i + 1 as int)));
            i = i + 1;
        } else {
            let mut j: usize = i;
            assert(s.skip(j as int) == t);
            while j < len && !is_whitespace_char(line.get_char(j))
                invariant
                    i <= j <= len,
                    len == s.len(),
                    s == line@,
                    t == s.skip(i as int),
                    token_len(t) == (j - i) + token_len(s.skip(j as int)),
                    forall|x: int| i <= x < j ==> !is_whitespace(s[x]),
                decreases len - j,
            {
                assert(s.skip(j as int)[0] == s[j as int]);
                assert(s.skip(j as int).skip(1) =~= s.skip(j + 1 as int));
                j = j + 1;
            }
            proof {
                if j < len {
                    assert(s.skip(j as int)[0] == s[j as int]);
                }
                assert(token_len(t) == j - i);
                assert(t.skip((j - i) as int) =~= s.skip(j as int));
                assert(t.take((j - i) as int) =~= s.subrange(i as int, j as int));
                assert(tokens(t) =~= seq![s.subrange(i as int, j as int)] + tokens(s.skip(j as int)));
            }
            let ghost rest = tokens(s.skip(j as int));
            assert(tokens(t)[0] == s.subrange(i as int, j as int));
            assert(tokens(s)[count as int] == tokens(t)[0]);
            if count == n {
                return Some(String::from_str(line.substring_char(i, j)));
            }
            assert forall|k: int| 0 <= k < rest.len() implies tokens(s)[count + 1 + k] == rest[k] by {
                assert(tokens(t)[k + 1] == rest[k]);
                assert(tokens(s)[count + (k + 1)] == tokens(t)[k + 1]);
            }
            count = count + 1;
            i = j;
        }
    }
    assert(s.skip(len as int).len() == 0);
    None
}

fn request_word_exec(request: &[u8], n: usize) -> (r: Option<String>)
    ensures
        match r {
            None => request_word(utf8_lossy_of(request@), n as nat) is None,
            Some(w) => request_word(utf8_lossy_of(request@), n as nat) == Some(w@),
        },
{
    let text = lossy_utf8(request);
    match take_first_line(text.as_str()) {
        None => None,
        Some(line) => nth_token(line.as_str(), n),
    }
}

/// The method of an HTTP request: the first word of its first line. `None`
/// when the request has no such word.
pub fn get_request_type(request: &[u8]) -> (r: Option<String>)
    ensures
        match r {
            None => request_word(utf8_lossy_of(request@), 0) is None,
            Some(w) => request_word(utf8_lossy_of(request@), 0) == Some(w@),
        },
{
    request_word_exec(request, 0)
}

/// The path of an HTTP request: the second word of its first line. `None`
/// when the request has no such word.
pub fn get_url_part(request: &[u8]) -> (r: Option<String>)
    ensures
        match r {
            None => request_word(utf8_lossy_of(request@), 1) is None,
            Some(w) => request_word(utf8_lossy_of(request@), 1) == Some(w@),
        },
{
    request_word_exec(request, 1)
}

/// The status line and the headers before the length of the reply.
pub open spec fn response_head() -> Seq<char> {
    "HTTP/1.1 200 OK\r\nAccept-Ranges:bytes\r\nContent-Length:"@
}

/// The headers after the length of the reply, and the blank line.
pub open spec fn response_fields() -> Seq<char> {
    "\r\nContent-Type:application/json\r\nServer:Epee-based\r\n\r\n"@
}

/// The decimal digit for `d`.
pub open spec fn digit_char(d: nat) -> char {
    if d == 0 {
        '0'
    } else if d == 1 {
        '1'
    } else if d == 2 {
        '2'
    } else if d == 3 {
        '3'
    } else if d == 4 {
        '4'
    } else if d == 5 {
        '5'
    } else if d == 6 {
        '6'
    } else if d == 7 {
        '7'
    } else if d == 8 {
        '8'
    } else {
        '9'
    }
}

/// `n` written in decimal, without leading zeros.
pub open spec fn decimal(n: nat) -> Seq<char>
    decreases n,
{
    if n < 10 {
        seq![digit_char(n)]
    } else {
        decimal(n / 10).push(digit_char(n % 10))
    }
}

fn digit_str(d: usize) -> (r: &'static str)
    requires
        d < 10,
    ensures
        r@ == seq![digit_char(d as nat)],
{
    proof {
        reveal_strlit("0");
        reveal_strlit("1");
        reveal_strlit("2");
        reveal_strlit("3");
        reveal_strlit("4");
        reveal_strlit("5");
        reveal_strlit("6");
        reveal_strlit("7");
        reveal_strlit("8");
        reveal_strlit("9");
    }
    let r = if d == 0 {
        "0"
    } else if d == 1 {
        "1"
    } else if d == 2 {
        "2"
    } else if d == 3 {
        "3"
    } else if d == 4 {
        "4"
    } else if d == 5 {
        "5"
    } else if d == 6 {
        "6"
    } else if d == 7 {
        "7"
    } else if d == 8 {
        "8"
    } else {
        "9"
    };
    assert(r@ =~= seq![digit_char(d as nat)]);
    r
}

fn append_decimal(out: &mut String, n: usize)
    ensures
        final(out)@ == old(out)@ + decimal(n as nat),
    decreases n,
{
    if n >= 10 {
        append_decimal(out, n / 10);
    }
    let ghost before = out@;
    out.append(digit_str(n % 10));
    proof {
        if n >= 10 {
            assert(out@ =~= old(out)@ + decimal(n as nat));
        } else {
            assert(out@ =~= old(out)@ + decimal(n as nat));
        }
    }
}

/// An HTTP reply carrying `response_data` as its JSON body, with its length
/// in bytes (of the body read as text) in the header.
pub fn structure_response(response_data: &[u8]) -> (r: String)
    ensures
        r@ == response_head() + decimal(
            (encode_utf8(utf8_lossy_of(response_data@)).len() as usize) as nat,
        ) + response_fields() + utf8_lossy_of(response_data@),
{
    let body = lossy_utf8(response_data);
    let length = body.as_str().len();
    let mut r = String::from_str("HTTP/1.1 200 OK\r\nAccept-Ranges:bytes\r\nContent-Length:");
    append_decimal(&mut r, length);
    r.append("\r\nContent-Type:application/json\r\nServer:Epee-based\r\n\r\n");
    r.append(body.as_str());
    assert(r@ =~= response_head() + decimal(length as nat) + response_fields() + body@);
    r
}

/// The match that `regex::Regex::find` gives for a pattern in a text: `None`
/// when nothing matches or the pattern does not compile.
pub uninterp spec fn regex_first_match(pattern: Seq<char>, text: Seq<char>) -> Option<Seq<char>>;

/// Relies on regex::Regex::new and Regex::find: the leftmost-first match of
/// the pattern in the text, a function of the two alone.
#[verifier::external_body]
fn first_match(pattern: &str, text: &str) -> (r: Option<String>)
    ensures
        match r {
            Some(m) => regex_first_match(pattern@, text@) == Some(m@),
            None => regex_first_match(pattern@, text@) is None,
        },
{
    let re = regex::Regex::new(pattern).ok()?;
    re.find(text).map(|m| m.as_str().to_string())
}

/// The JSON part of a request: from a `{` to the last `}` after it on the
/// same line.
pub open spec fn json_pattern() -> Seq<char> {
    "\\{(.*)\\}"@
}

/// The bytes of a found JSON text, as UTF-8.
pub fn json_bytes(found: Option<String>) -> (r: Option<Vec<u8>>)
    ensures
        match found {
            None => r is None,
            Some(m) => r is Some && r->0@ == encode_utf8(m@),
        },
{
    match found {
        None => None,
        Some(m) => Some(vstd::slice::slice_to_vec(m.as_str().as_bytes())),
    }
}

/// The JSON object in a request, as bytes: the first match of `\{(.*)\}` in
/// the request read as text. `None` when there is none.
pub fn get_json(request: &[u8]) -> (r: Option<Vec<u8>>)
    ensures
        match regex_first_match(json_pattern(), utf8_lossy_of(request@)) {
            None => r is None,
            Some(m) => r is Some && r->0@ == encode_utf8(m),
        },
{
    let text = stringify_request(request);
    let found = first_match("\\{(.*)\\}", text.as_str());
    json_bytes(found)
}

} // verus!
