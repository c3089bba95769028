//! The JSON wire form of a chat request: string escaping, number
//! rendering, and the serialization of the request model. This is the
//! body the client posts to `/chat/completions`.

use vstd::prelude::*;
use crate::request::{ChatMessage, ChatRequest, ContentPart, MessageContent};

verus! {

/// Relies on `String::push`: appends exactly the one character.
#[verifier::external_body]
fn push_char(s: &mut String, c: char)
    ensures
        final(s)@ == old(s)@ + seq![c],
{
    s.push(c);
}

/// The hexadecimal digit characters, lower case.
pub open spec fn digit_char(n: int) -> char {
    if n == 0 {
        '0'
    } else if n == 1 {
        '1'
    } else if n == 2 {
        '2'
    } else if n == 3 {
        '3'
    } else if n == 4 {
        '4'
    } else if n == 5 {
        '5'
    } else if n == 6 {
        '6'
    } else if n == 7 {
        '7'
    } else if n == 8 {
        '8'
    } else if n == 9 {
        '9'
    } else if n == 10 {
        'a'
    } else if n == 11 {
        'b'
    } else if n == 12 {
        'c'
    } else if n == 13 {
        'd'
    } else if n == 14 {
        'e'
    } else {
        'f'
    }
}

/// Runtime form of [`digit_char`].
fn digit(n: u8) -> (c: char)
    requires
        n < 16,
    ensures
        c == digit_char(n as int),
{
    if n == 0 {
        '0'
    } else if n == 1 {
        '1'
    } else if n == 2 {
        '2'
    } else if n == 3 {
        '3'
    } else if n == 4 {
        '4'
    } else if n == 5 {
        '5'
    } else if n == 6 {
        '6'
    } else if n == 7 {
        '7'
    } else if n == 8 {
        '8'
    } else if n == 9 {
        '9'
    } else if n == 10 {
        'a'
    } else if n == 11 {
        'b'
    } else if n == 12 {
        'c'
    } else if n == 13 {
        'd'
    } else if n == 14 {
        'e'
    } else {
        'f'
    }
}

/// Decimal rendering of a nonnegative integer, without leading zeros.
pub open spec fn dec_of(n: int) -> Seq<char>
    decreases n,
{
    if n < 10 {
        seq![digit_char(n)]
    } else {
        dec_of(n / 10) + seq![digit_char(n % 10)]
    }
}

/// Appends the decimal rendering of `n`.
fn append_u64(out: &mut String, n: u64)
    ensures
        final(out)@ == old(out)@ + dec_of(n as int),
    decreases n,
{
    if n < 10 {
        push_char(out, digit(n as u8));
    } else {
        append_u64(out, n / 10);
        push_char(out, digit((n % 10) as u8));
        proof {
            assert(old(out)@ + dec_of(n as int / 10) + seq![digit_char(n as int % 10)] =~= old(
                out,
            )@ + dec_of(n as int));
        }
    }
}

/// The digits after the decimal point for a temperature held in
/// thousandths, trailing zeros dropped: `f` ranges over 1..=999.
pub open spec fn milli_frac(f: int) -> Seq<char> {
    if f % 10 != 0 {
        seq![digit_char(f / 100), digit_char(f / 10 % 10), digit_char(f % 10)]
    } else if f % 100 != 0 {
        seq![digit_char(f / 100), digit_char(f / 10 % 10)]
    } else {
        seq![digit_char(f / 100)]
    }
}

/// JSON number rendering of a value held in thousandths: the integer
/// part, then the shortest fraction, so that 200 renders as `0.2`.
pub open spec fn milli_of(m: int) -> Seq<char> {
    if m % 1000 == 0 {
        dec_of(m / 1000)
    } else {
        dec_of(m / 1000) + seq!['.'] + milli_frac(m % 1000)
    }
}

/// Appends the thousandths rendering of `m`.
fn append_milli(out: &mut String, m: u64)
    ensures
        final(out)@ == old(out)@ + milli_of(m as int),
{
    append_u64(out, m / 1000);
    let f = m % 1000;
    if f != 0 {
        push_char(out, '.');
        if f % 10 != 0 {
            push_char(out, digit((f / 100) as u8));
            push_char(out, digit((f / 10 % 10) as u8));
            push_char(out, digit((f % 10) as u8));
        } else if f % 100 != 0 {
            push_char(out, digit((f / 100) as u8));
            push_char(out, digit((f / 10 % 10) as u8));
        } else {
            push_char(out, digit((f / 100) as u8));
        }
        proof {
            assert(out@ =~= old(out)@ + milli_of(m as int));
        }
    }
}

/// The escape of one character inside a JSON string: quote and
/// backslash escaped, the common control characters by their short
/// forms, the rest of the control range as `\u00XX`, and everything
/// else unchanged.
pub open spec fn esc_char(c: char) -> Seq<char> {
    if c == '"' {
        "\\\""@
    } else if c == '\\' {
        "\\\\"@
    } else if c == '\n' {
        "\\n"@
    } else if c == '\r' {
        "\\r"@
    } else if c == '\t' {
        "\\t"@
    } else if (c as u32) < 0x20 {
        "\\u00"@ + seq![digit_char(((c as u32) as int) / 16), digit_char(((c as u32) as int) % 16)]
    } else {
        seq![c]
    }
}

/// The JSON escape of a whole character sequence.
pub open spec fn json_escaped(s: Seq<char>) -> Seq<char>
    decreases s.len(),
{
    if s.len() == 0 {
        Seq::<char>::empty()
    } else {
        esc_char(s[0]) + json_escaped(s.skip(1))
    }
}

/// A JSON string literal: the escaped characters between quotes.
pub open spec fn json_string(s: Seq<char>) -> Seq<char> {
    seq!['"'] + json_escaped(s) + seq!['"']
}

/// Appends the escape of every character of `s`.
fn append_escaped(out: &mut String, s: &str)
    ensures
        final(out)@ == old(out)@ + json_escaped(s@),
{
    let n = s.unicode_len();
    proof {
        assert(s@.skip(0) =~= s@);
    }
    let mut k: usize = 0;
    while k < n
        invariant
            0 <= k <= n,
            n == s@.len(),
            out@ + json_escaped(s@.skip(k as int)) == old(out)@ + json_escaped(s@),
        decreases n - k,
    {
        let c = s.get_char(k);
        proof {
            assert(s@.skip(k as int)[0] == s@[k as int]);
            assert(s@.skip(k as int).skip(1) =~= s@.skip(k + 1));
        }
        let ghost prev = out@;
        if c == '"' {
            out.append("\\\"");
        } else if c == '\\' {
            out.append("\\\\");
        } else if c == '\n' {
            out.append("\\n");
        } else if c == '\r' {
            out.append("\\r");
        } else if c == '\t' {
            out.append("\\t");
        } else if (c as u32) < 0x20 {
            let u = c as u32;
            out.append("\\u00");
            push_char(out, digit((u / 16) as u8));
            push_char(out, digit((u % 16) as u8));
        } else {
            push_char(out, c);
        }
        proof {
            assert(out@ =~= prev + esc_char(c));
            assert(out@ + json_escaped(s@.skip(k + 1)) =~= prev + json_escaped(s@.skip(k as int)));
        }
        k = k + 1;
    }
    proof {
        assert(json_escaped(s@.skip(n as int)) =~= Seq::<char>::empty());
        assert(out@ + Seq::<char>::empty() =~= out@);
    }
}

/// Appends `s` as a JSON string literal.
fn append_json_string(out: &mut String, s: &str)
    ensures
        final(out)@ == old(out)@ + json_string(s@),
{
    push_char(out, '"');
    append_escaped(out, s);
    push_char(out, '"');
    proof {
        assert(out@ =~= old(out)@ + json_string(s@));
    }
}

/// The JSON object form of one content part.
pub open spec fn part_json(p: ContentPart) -> Seq<char> {
    match p {
        ContentPart::ImageUrl(u) => "{\"type\":\"image_url\",\"image_url\":{\"url\":"@
            + json_string(u@) + "}}"@,
        ContentPart::Text(t) => "{\"type\":\"text\",\"text\":"@ + json_string(t@) + "}"@,
    }
}

/// The comma-joined JSON forms of the parts from index `i` on.
pub open spec fn parts_json_from(ps: Seq<ContentPart>, i: int) -> Seq<char>
    decreases ps.len() - i,
{
    if i < 0 || i >= ps.len() {
        Seq::<char>::empty()
    } else {
        (if i > 0 {
            seq![',']
        } else {
            Seq::<char>::empty()
        }) + part_json(ps[i]) + parts_json_from(ps, i + 1)
    }
}

/// The JSON form of a message's content: a string for plain text, an
/// array of part objects for mixed content.
pub open spec fn content_json(c: MessageContent) -> Seq<char> {
    match c {
        MessageContent::Text(t) => json_string(t@),
        MessageContent::Parts(ps) => seq!['['] + parts_json_from(ps@, 0) + seq![']'],
    }
}

/// The JSON object form of one message.
pub open spec fn message_json(m: ChatMessage) -> Seq<char> {
    "{\"role\":"@ + json_string(m.role@) + ",\"content\":"@ + content_json(m.content) + "}"@
}

/// The comma-joined JSON forms of the messages from index `i` on.
pub open spec fn messages_json_from(ms: Seq<ChatMessage>, i: int) -> Seq<char>
    decreases ms.len() - i,
{
    if i < 0 || i >= ms.len() {
        Seq::<char>::empty()
    } else {
        (if i > 0 {
            seq![',']
        } else {
            Seq::<char>::empty()
        }) + message_json(ms[i]) + messages_json_from(ms, i + 1)
    }
}

/// The complete JSON body of a chat request.
pub open spec fn request_json(req: ChatRequest) -> Seq<char> {
    "{\"model\":"@ + json_string(req.model@) + ",\"messages\":["@ + messages_json_from(
        req.messages@,
        0,
    ) + "],\"max_tokens\":"@ + dec_of(req.max_tokens as int) + ",\"temperature\":"@ + milli_of(
        req.temperature_milli as int,
    ) + "}"@
}

/// Appends the JSON object form of one content part.
fn append_part(out: &mut String, p: &ContentPart)
    ensures
        final(out)@ == old(out)@ + part_json(*p),
{
    match p {
        ContentPart::ImageUrl(u) => {
            out.append("{\"type\":\"image_url\",\"image_url\":{\"url\":");
            append_json_string(out, u.as_str());
            out.append("}}");
        },
        ContentPart::Text(t) => {
            out.append("{\"type\":\"text\",\"text\":");
            append_json_string(out, t.as_str());
            out.append("}");
        },
    }
    proof {
        assert(out@ =~= old(out)@ + part_json(*p));
    }
}

/// Appends the JSON form of a message's content.
fn append_content(out: &mut String, c: &MessageContent)
    ensures
        final(out)@ == old(out)@ + content_json(*c),
{
    match c {
        MessageContent::Text(t) => {
            append_json_string(out, t.as_str());
        },
        MessageContent::Parts(ps) => {
            push_char(out, '[');
            let ghost start = out@;
            let n = ps.len();
            let mut i: usize = 0;
            while i < n
                invariant
                    0 <= i <= n,
                    n == ps@.len(),
                    out@ + parts_json_from(ps@, i as int) == start + parts_json_from(ps@, 0),
                decreases n - i,
            {
                let ghost prev = out@;
                if i > 0 {
                    push_char(out, ',');
                }
                append_part(out, &ps[i]);
                proof {
                    if i > 0 {
                        assert(out@ =~= prev + seq![','] + part_json(ps@[i as int]));
                        assert(out@ + parts_json_from(ps@, i + 1) =~= prev + parts_json_from(
                            ps@,
                            i as int,
                        ));
                    } else {
                        assert(out@ =~= prev + part_json(ps@[i as int]));
                        assert(out@ + parts_json_from(ps@, i + 1) =~= prev + parts_json_from(
                            ps@,
                            i as int,
                        ));
                    }
                }
                i = i + 1;
            }
            push_char(out, ']');
            proof {
                assert(parts_json_from(ps@, n as int) =~= Seq::<char>::empty());
                assert(out@ =~= old(out)@ + content_json(*c));
            }
        },
    }
}

/// Appends the JSON object form of one message.
fn append_message(out: &mut String, m: &ChatMessage)
    ensures
        final(out)@ == old(out)@ + message_json(*m),
{
    out.append("{\"role\":");
    append_json_string(out, m.role.as_str());
    out.append(",\"content\":");
    append_content(out, &m.content);
    out.append("}");
    proof {
        assert(out@ =~= old(out)@ + message_json(*m));
    }
}

/// Serializes a chat request to the JSON body sent over the wire.
pub fn render_request(req: &ChatRequest) -> (r: String)
    ensures
        r@ == request_json(*req),
{
    let mut out = String::new();
    out.append("{\"model\":");
    append_json_string(&mut out, req.model.as_str());
    out.append(",\"messages\":[");
    let ghost start = out@;
    let n = req.messages.len();
    let mut i: usize = 0;
    while i < n
        invariant
            0 <= i <= n,
            n == req.messages@.len(),
            out@ + messages_json_from(req.messages@, i as int) == start + messages_json_from(
                req.messages@,
                0,
            ),
        decreases n - i,
    {
        let ghost prev = out@;
        if i > 0 {
            push_char(&mut out, ',');
        }
        append_message(&mut out, &req.messages[i]);
        proof {
            if i > 0 {
                assert(out@ =~= prev + seq![','] + message_json(req.messages@[i as int]));
            } else {
                assert(out@ =~= prev + message_json(req.messages@[i as int]));
            }
            assert(out@ + messages_json_from(req.messages@, i + 1) =~= prev + messages_json_from(
                req.messages@,
                i as int,
            ));
        }
        i = i + 1;
    }
    proof {
        assert(messages_json_from(req.messages@, n as int) =~= Seq::<char>::empty());
    }
    out.append("],\"max_tokens\":");
    append_u64(&mut out, req.max_tokens);
    out.append(",\"temperature\":");
    append_milli(&mut out, req.temperature_milli);
    out.append("}");
    proof {
        assert(out@ =~= request_json(*req));
    }
    out
}

} // verus!
