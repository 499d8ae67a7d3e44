use vstd::prelude::*;
use vstd::std_specs::iter::IteratorSpec;
use crate::digits::{dec_rep, hex_char, hex_char_of};
use crate::msg::OutboundRequestEvent;
use crate::response::header_views;

verus! {

/// JSON escaping of one character: quote and backslash get a backslash,
/// the common control characters their short escapes, the remaining control
/// characters the \u00XX form, and every other character stands for itself.
pub open spec fn escape_char(c: char) -> Seq<char> {
    if c == '"' {
        seq!['\\', '"']
    } else if c == '\\' {
        seq!['\\', '\\']
    } else if c == '\u{8}' {
        seq!['\\', 'b']
    } else if c == '\u{c}' {
        seq!['\\', 'f']
    } else if c == '\n' {
        seq!['\\', 'n']
    } else if c == '\r' {
        seq!['\\', 'r']
    } else if c == '\t' {
        seq!['\\', 't']
    } else if (c as u32) < 32 {
        seq!['\\', 'u', '0', '0', hex_char(((c as u32) / 16) as nat), hex_char(
            ((c as u32) % 16) as nat,
        )]
    } else {
        seq![c]
    }
}

/// JSON escaping of a character sequence.
pub open spec fn escape_seq(s: Seq<char>) -> Seq<char>
    decreases s.len(),
{
    if s.len() == 0 {
        Seq::empty()
    } else {
        escape_char(s[0]) + escape_seq(s.drop_first())
    }
}

/// Escaping distributes over concatenation.
pub proof fn lemma_escape_seq_concat(a: Seq<char>, b: Seq<char>)
    ensures
        escape_seq(a + b) == escape_seq(a) + escape_seq(b),
    decreases a.len(),
{
    if a.len() == 0 {
        assert(a + b =~= b);
        assert(escape_seq(a) + escape_seq(b) =~= escape_seq(b));
    } else {
        assert((a + b).drop_first() =~= a.drop_first() + b);
        lemma_escape_seq_concat(a.drop_first(), b);
        assert((a + b)[0] == a[0]);
        assert(escape_char(a[0]) + (escape_seq(a.drop_first()) + escape_seq(b)) =~= (escape_char(
            a[0],
        ) + escape_seq(a.drop_first())) + escape_seq(b));
    }
}

/// The characters of a string, in order.
pub fn chars_of(s: &str) -> (v: Vec<char>)
    ensures
        v@ == s@,
{
    broadcast use vstd::string::axiom_spec_iter, vstd::string::next_postcondition;

    let mut v: Vec<char> = Vec::new();
    let mut it = s.chars();
    loop
        invariant
            it.obeys_prophetic_iter_laws(),
            it.decrease() is Some,
            v@ + it.remaining() == s@,
        ensures
            v@ == s@,
        decreases it.decrease()->0,
    {
        match it.next() {
            Some(c) => {
                v.push(c);
                proof {
                    assert(v@ + it.remaining() =~= s@);
                }
            },
            None => {
                proof {
                    assert(v@ + it.remaining() =~= v@);
                }
                break ;
            },
        }
    }
    v
}

/// Relies on String's FromIterator over char: collecting the characters of
/// `v`, in order, gives a string with exactly those characters.
#[verifier::external_body]
pub(crate) fn string_from_chars(v: Vec<char>) -> (s: String)
    ensures
        s@ == v@,
{
    v.into_iter().collect()
}

/// Appends the characters of a string literal to `out`.
pub(crate) fn push_literal(out: &mut Vec<char>, s: &str)
    ensures
        final(out)@ == old(out)@ + s@,
{
    let mut v = chars_of(s);
    out.append(&mut v);
}

/// Appends the JSON escaping of `s` to `out`.
pub fn push_escaped(out: &mut Vec<char>, s: &Vec<char>)
    ensures
        final(out)@ == old(out)@ + escape_seq(s@),
{
    let ghost base = out@;
    let mut i: usize = 0;
    while i < s.len()
        invariant
            i <= s.len(),
            out@ == base + escape_seq(s@.take(i as int)),
        decreases s.len() - i,
    {
        let c = s[i];
        proof {
            assert(s@.take(i as int + 1) =~= s@.take(i as int) + seq![s@[i as int]]);
            lemma_escape_seq_concat(s@.take(i as int), seq![s@[i as int]]);
            assert(seq![s@[i as int]].drop_first() =~= Seq::<char>::empty());
            assert(escape_seq(Seq::<char>::empty()) == Seq::<char>::empty());
            assert(escape_seq(seq![s@[i as int]]) == escape_char(s@[i as int]) + escape_seq(
                Seq::<char>::empty(),
            ));
            assert(escape_seq(seq![s@[i as int]]) =~= escape_char(s@[i as int]));
        }
        if c == '"' {
            out.push('\\');
            out.push('"');
        } else if c == '\\' {
            out.push('\\');
            out.push('\\');
        } else if c == '\u{8}' {
            out.push('\\');
            out.push('b');
        } else if c == '\u{c}' {
            out.push('\\');
            out.push('f');
        } else if c == '\n' {
            out.push('\\');
            out.push('n');
        } else if c == '\r' {
            out.push('\\');
            out.push('r');
        } else if c == '\t' {
            out.push('\\');
            out.push('t');
        } else if (c as u32) < 32 {
            out.push('\\');
            out.push('u');
            out.push('0');
            out.push('0');
            out.push(hex_char_of((c as u32) / 16));
            out.push(hex_char_of((c as u32) % 16));
        } else {
            out.push(c);
        }
        proof {
            assert(out@ =~= base + escape_seq(s@.take(i as int + 1)));
        }
        i = i + 1;
    }
    proof {
        assert(s@.take(s@.len() as int) =~= s@);
    }
}

/// The wire form of the header list: a JSON array of two-element string
/// arrays, one per header pair, in order, duplicates preserved.
pub open spec fn encode_headers_items(hs: Seq<(Seq<char>, Seq<char>)>) -> Seq<char>
    decreases hs.len(),
{
    if hs.len() == 0 {
        Seq::empty()
    } else if hs.len() == 1 {
        "[\""@ + escape_seq(hs[0].0) + "\",\""@ + escape_seq(hs[0].1) + "\"]"@
    } else {
        encode_headers_items(hs.drop_last()) + ",[\""@ + escape_seq(hs.last().0) + "\",\""@
            + escape_seq(hs.last().1) + "\"]"@
    }
}

/// The event wire format: a JSON object carrying the method, the full path,
/// the header list, the body, and the correlation id, in that order.
pub open spec fn encode_event_spec(
    method: Seq<char>,
    path: Seq<char>,
    headers: Seq<(Seq<char>, Seq<char>)>,
    body: Seq<char>,
    request_id: u64,
) -> Seq<char> {
    "{\"method\":\""@ + escape_seq(method) + "\",\"path\":\""@ + escape_seq(path)
        + "\",\"headers\":["@ + encode_headers_items(headers) + "],\"body\":\""@ + escape_seq(body)
        + "\",\"request_id\":"@ + dec_rep(request_id as nat) + "}"@
}

/// The response wire format: a JSON object carrying the correlation id, the
/// status, and the body, in that order.
pub open spec fn encode_response_spec(request_id: u64, status: u16, body: Seq<char>) -> Seq<char> {
    "{\"request_id\":"@ + dec_rep(request_id as nat) + ",\"status\":"@ + dec_rep(status as nat)
        + ",\"body\":\""@ + escape_seq(body) + "\"}"@
}

/// Serializes a request event to its wire format. Every event serializes;
/// this step has no failure case.
pub fn encode_event(e: &OutboundRequestEvent) -> (s: String)
    ensures
        s@ == encode_event_spec(e.method@, e.path@, header_views(e.headers@), e.body@, e.request_id),
{
    let ghost hv = header_views(e.headers@);
    let mut out: Vec<char> = Vec::new();
    push_literal(&mut out, "{\"method\":\"");
    let m = chars_of(e.method.as_str());
    push_escaped(&mut out, &m);
    push_literal(&mut out, "\",\"path\":\"");
    let p = chars_of(e.path.as_str());
    push_escaped(&mut out, &p);
    push_literal(&mut out, "\",\"headers\":[");
    let ghost mid = out@;
    let mut i: usize = 0;
    while i < e.headers.len()
        invariant
            i <= e.headers.len(),
            hv == header_views(e.headers@),
            hv.len() == e.headers@.len(),
            out@ == mid + encode_headers_items(hv.take(i as int)),
        decreases e.headers.len() - i,
    {
        proof {
            assert(hv[i as int] == (e.headers@[i as int].0@, e.headers@[i as int].1@));
            assert(hv.take(i as int + 1).drop_last() =~= hv.take(i as int));
            assert(hv.take(i as int + 1).last() == hv[i as int]);
        }
        if i > 0 {
            push_literal(&mut out, ",[\"");
        } else {
            push_literal(&mut out, "[\"");
        }
        let k = chars_of(e.headers[i].0.as_str());
        push_escaped(&mut out, &k);
        push_literal(&mut out, "\",\"");
        let v = chars_of(e.headers[i].1.as_str());
        push_escaped(&mut out, &v);
        push_literal(&mut out, "\"]");
        proof {
            assert(out@ =~= mid + encode_headers_items(hv.take(i as int + 1)));
        }
        i = i + 1;
    }
    proof {
        assert(hv.take(hv.len() as int) =~= hv);
    }
    push_literal(&mut out, "],\"body\":\"");
    let b = chars_of(e.body.as_str());
    push_escaped(&mut out, &b);
    push_literal(&mut out, "\",\"request_id\":");
    crate::digits::push_decimal(&mut out, e.request_id);
    push_literal(&mut out, "}");
    proof {
        assert(out@ =~= encode_event_spec(
            e.method@,
            e.path@,
            header_views(e.headers@),
            e.body@,
            e.request_id,
        ));
    }
    string_from_chars(out)
}

} // verus!
