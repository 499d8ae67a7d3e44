use vstd::prelude::*;
use crate::codec::{encode_response_spec, escape_char, escape_seq};
use crate::digits::{
    dec_rep, digit_val, hex_char, hex_val, is_digit_char, is_hex_char, lemma_dec_rep_digits,
    lemma_dec_rep_first, lemma_digit_char_val, lemma_seq_to_nat_dec_rep, lemma_seq_to_nat_lower,
    pow10, seq_to_nat,
};
use crate::msg::InboundResponseMessage;

verus! {

/// Whether a character is JSON whitespace.
pub open spec fn is_ws_char(c: char) -> bool {
    c == ' ' || c == '\t' || c == '\n' || c == '\r'
}

/// The first index at or after `i` holding a non-whitespace character, or
/// the end of the input.
pub open spec fn skip_ws(s: Seq<char>, i: int) -> int
    decreases s.len() - i
    when 0 <= i <= s.len()
{
    if i < s.len() && is_ws_char(s[i]) {
        skip_ws(s, i + 1)
    } else {
        i
    }
}

/// The first index at or after `i` holding a non-digit character, or the
/// end of the input.
pub open spec fn digit_run_end(s: Seq<char>, i: int) -> int
    decreases s.len() - i
    when 0 <= i <= s.len()
{
    if i < s.len() && is_digit_char(s[i]) {
        digit_run_end(s, i + 1)
    } else {
        i
    }
}

/// A JSON unsigned integer starting at `i`: a single zero digit, or a
/// nonzero digit run naming a value that fits in 64 bits. Yields the value
/// and the index just past it.
pub open spec fn parse_number_spec(s: Seq<char>, i: int) -> Option<(u64, int)>
    recommends
        0 <= i <= s.len(),
{
    if i < s.len() && is_digit_char(s[i]) {
        if digit_val(s[i]) == 0 {
            Some((0u64, i + 1))
        } else {
            let j = digit_run_end(s, i);
            let n = seq_to_nat(s.subrange(i, j));
            if n <= u64::MAX {
                Some((n as u64, j))
            } else {
                None
            }
        }
    } else {
        None
    }
}

/// The body of a JSON string starting just past its opening quote:
/// unescapes until the closing quote, rejecting raw control characters,
/// unknown escapes, and surrogate code units. Yields the accumulated
/// characters and the index just past the closing quote.
pub open spec fn parse_str_rec(s: Seq<char>, i: int, acc: Seq<char>) -> Option<(Seq<char>, int)>
    decreases s.len() - i
    when 0 <= i <= s.len()
{
    if i >= s.len() {
        None
    } else if s[i] == '"' {
        Some((acc, i + 1))
    } else if s[i] == '\\' {
        if i + 1 >= s.len() {
            None
        } else {
            let e = s[i + 1];
            if e == '"' {
                parse_str_rec(s, i + 2, acc.push('"'))
            } else if e == '\\' {
                parse_str_rec(s, i + 2, acc.push('\\'))
            } else if e == '/' {
                parse_str_rec(s, i + 2, acc.push('/'))
            } else if e == 'b' {
                parse_str_rec(s, i + 2, acc.push('\u{8}'))
            } else if e == 'f' {
                parse_str_rec(s, i + 2, acc.push('\u{c}'))
            } else if e == 'n' {
                parse_str_rec(s, i + 2, acc.push('\n'))
            } else if e == 'r' {
                parse_str_rec(s, i + 2, acc.push('\r'))
            } else if e == 't' {
                parse_str_rec(s, i + 2, acc.push('\t'))
            } else if e == 'u' {
                if i + 5 >= s.len() {
                    None
                } else if is_hex_char(s[i + 2]) && is_hex_char(s[i + 3]) && is_hex_char(s[i + 4])
                    && is_hex_char(s[i + 5]) {
                    let code = hex_val(s[i + 2]) * 4096 + hex_val(s[i + 3]) * 256 + hex_val(
                        s[i + 4],
                    ) * 16 + hex_val(s[i + 5]);
                    if 0xd800 <= code && code <= 0xdfff {
                        None
                    } else {
                        parse_str_rec(s, i + 6, acc.push(((code as u32) as char)))
                    }
                } else {
                    None
                }
            } else {
                None
            }
        }
    } else if (s[i] as u32) < 32 {
        None
    } else {
        parse_str_rec(s, i + 1, acc.push(s[i]))
    }
}

/// A JSON string starting at `i`, opening quote included.
pub open spec fn parse_string_spec(s: Seq<char>, i: int) -> Option<(Seq<char>, int)>
    recommends
        0 <= i <= s.len(),
{
    if i < s.len() && s[i] == '"' {
        parse_str_rec(s, i + 1, Seq::empty())
    } else {
        None
    }
}

/// How many of the three response fields are still missing.
pub open spec fn missing_count(
    id: Option<u64>,
    status: Option<u16>,
    body: Option<Seq<char>>,
) -> nat {
    (if id is None {
        1nat
    } else {
        0nat
    }) + (if status is None {
        1nat
    } else {
        0nat
    }) + (if body is None {
        1nat
    } else {
        0nat
    })
}

/// One member of the response object, starting at the key: exactly the
/// three known keys are accepted, each at most once, `request_id` and
/// `status` as unsigned integers (the status fitting in 16 bits), `body`
/// as a string.
pub open spec fn parse_members_rec(
    s: Seq<char>,
    i: int,
    id: Option<u64>,
    status: Option<u16>,
    body: Option<Seq<char>>,
) -> Option<((u64, u16, Seq<char>), int)>
    decreases missing_count(id, status, body), 0nat
    when 0 <= i <= s.len()
{
    let k = skip_ws(s, i);
    match parse_string_spec(s, k) {
        None => None,
        Some((key, a)) => {
            let b = skip_ws(s, a);
            if 0 <= a <= s.len() && b < s.len() && s[b] == ':' {
                let c = skip_ws(s, b + 1);
                if key == "request_id"@ {
                    if id is Some {
                        None
                    } else {
                        match parse_number_spec(s, c) {
                            None => None,
                            Some((n, d)) => parse_members_sep(s, d, Some(n), status, body),
                        }
                    }
                } else if key == "status"@ {
                    if status is Some {
                        None
                    } else {
                        match parse_number_spec(s, c) {
                            None => None,
                            Some((n, d)) => if n <= 65535 {
                                parse_members_sep(s, d, id, Some(n as u16), body)
                            } else {
                                None
                            },
                        }
                    }
                } else if key == "body"@ {
                    if body is Some {
                        None
                    } else {
                        match parse_string_spec(s, c) {
                            None => None,
                            Some((t, d)) => parse_members_sep(s, d, id, status, Some(t)),
                        }
                    }
                } else {
                    None
                }
            } else {
                None
            }
        },
    }
}

/// After one member: a comma continues with the next member, a closing
/// brace ends the object, which must by then have all three fields.
pub open spec fn parse_members_sep(
    s: Seq<char>,
    i: int,
    id: Option<u64>,
    status: Option<u16>,
    body: Option<Seq<char>>,
) -> Option<((u64, u16, Seq<char>), int)>
    decreases missing_count(id, status, body), 1nat
    when 0 <= i <= s.len()
{
    let e = skip_ws(s, i);
    if e < s.len() && s[e] == ',' {
        parse_members_rec(s, e + 1, id, status, body)
    } else if e < s.len() && s[e] == '}' {
        match (id, status, body) {
            (Some(idv), Some(st), Some(b)) => Some(((idv, st, b), e + 1)),
            _ => None,
        }
    } else {
        None
    }
}

/// The response wire grammar: optional whitespace, then a JSON object with
/// exactly the members `request_id`, `status` and `body`, in any order,
/// then optional whitespace to the end of the input. Yields the three
/// fields, or nothing for any input outside the grammar.
pub open spec fn parse_response_spec(s: Seq<char>) -> Option<(u64, u16, Seq<char>)> {
    let i = skip_ws(s, 0);
    if i < s.len() && s[i] == '{' {
        match parse_members_rec(s, i + 1, None, None, None) {
            None => None,
            Some((m, j)) => {
                if 0 <= j <= s.len() && skip_ws(s, j) == s.len() {
                    Some(m)
                } else {
                    None
                }
            },
        }
    } else {
        None
    }
}

/// Executable form of `skip_ws`.
fn skip_ws_x(s: &Vec<char>, i: usize) -> (j: usize)
    requires
        i <= s@.len(),
    ensures
        j == skip_ws(s@, i as int),
        i <= j <= s@.len(),
{
    let mut j = i;
    while j < s.len() && (s[j] == ' ' || s[j] == '\t' || s[j] == '\n' || s[j] == '\r')
        invariant
            i <= j <= s@.len(),
            skip_ws(s@, i as int) == skip_ws(s@, j as int),
        decreases s@.len() - j,
    {
        j = j + 1;
    }
    j
}

/// Executable form of `digit_run_end`, also reporting that the run is all
/// digits.
fn digit_run_end_x(s: &Vec<char>, i: usize) -> (j: usize)
    requires
        i <= s@.len(),
    ensures
        j == digit_run_end(s@, i as int),
        i <= j <= s@.len(),
        forall|t: int| i <= t < j ==> is_digit_char(s@[t]),
        j < s@.len() ==> !is_digit_char(s@[j as int]),
{
    let mut j = i;
    while j < s.len() && 48 <= (s[j] as u32) && (s[j] as u32) <= 57
        invariant
            i <= j <= s@.len(),
            digit_run_end(s@, i as int) == digit_run_end(s@, j as int),
            forall|t: int| i <= t < j ==> is_digit_char(s@[t]),
        decreases s@.len() - j,
    {
        j = j + 1;
    }
    j
}

/// Executable form of `parse_number_spec`.
fn parse_number_x(s: &Vec<char>, i: usize) -> (r: Option<(u64, usize)>)
    requires
        i <= s@.len(),
    ensures
        match r {
            Some((n, j)) => parse_number_spec(s@, i as int) == Some((n, j as int)) && i < j
                <= s@.len(),
            None => parse_number_spec(s@, i as int) is None,
        },
{
    if !(i < s.len()) {
        return None;
    }
    let u = s[i] as u32;
    if !(48 <= u && u <= 57) {
        return None;
    }
    if u == 48 {
        return Some((0, i + 1));
    }
    let j = digit_run_end_x(s, i);
    if j - i > 20 {
        proof {
            let run = s@.subrange(i as int, j as int);
            assert(run[0] == s@[i as int]);
            assert(digit_val(run[0]) >= 1);
            lemma_seq_to_nat_lower(run);
            lemma_pow10_increases(20, (run.len() - 1) as nat);
            assert(pow10(20) == 100000000000000000000) by {
                reveal_with_fuel(pow10, 21);
            }
        }
        return None;
    }
    let mut acc: u128 = 0;
    let mut k = i;
    proof {
        assert(s@.subrange(i as int, i as int) =~= Seq::<char>::empty());
        assert(pow10(0) == 1) by {
            reveal_with_fuel(pow10, 1);
        }
    }
    while k < j
        invariant
            i <= k <= j <= s@.len(),
            j - i <= 20,
            j == digit_run_end(s@, i as int),
            forall|t: int| i <= t < j ==> is_digit_char(s@[t]),
            acc == seq_to_nat(s@.subrange(i as int, k as int)),
            acc < pow10((k - i) as nat),
        decreases j - k,
    {
        let d = (s[k] as u32) - 48;
        proof {
            assert(is_digit_char(s@[k as int]));
            assert(d == digit_val(s@[k as int]));
            assert(s@.subrange(i as int, k as int + 1).drop_last() =~= s@.subrange(
                i as int,
                k as int,
            ));
            assert(s@.subrange(i as int, k as int + 1).last() == s@[k as int]);
            lemma_pow10_increases((k - i) as nat, 19);
            assert(pow10(19) == 10000000000000000000) by {
                reveal_with_fuel(pow10, 20);
            }
        }
        acc = acc * 10 + (d as u128);
        k = k + 1;
    }
    proof {
        lemma_pow10_increases((j - i) as nat, 20);
        assert(pow10(20) == 100000000000000000000) by {
            reveal_with_fuel(pow10, 21);
        }
    }
    if acc <= 0xffff_ffff_ffff_ffffu128 {
        Some((acc as u64, j))
    } else {
        None
    }
}

/// Ten to a larger power is at least ten to a smaller one.
pub proof fn lemma_pow10_increases(a: nat, b: nat)
    requires
        a <= b,
    ensures
        pow10(a) <= pow10(b),
    decreases b,
{
    if a < b {
        lemma_pow10_increases(a, (b - 1) as nat);
        assert(pow10(b) == 10 * pow10((b - 1) as nat));
        assert(pow10((b - 1) as nat) >= 1) by {
            lemma_pow10_positive((b - 1) as nat);
        }
    }
}

/// Ten to any power is positive.
pub proof fn lemma_pow10_positive(n: nat)
    ensures
        pow10(n) >= 1,
    decreases n,
{
    if n > 0 {
        lemma_pow10_positive((n - 1) as nat);
    }
}

/// The value of one hexadecimal digit character, if it is one.
fn hex_val_of(c: char) -> (r: Option<u32>)
    ensures
        match r {
            Some(v) => is_hex_char(c) && v == hex_val(c),
            None => !is_hex_char(c),
        },
{
    let u = c as u32;
    if 48 <= u && u <= 57 {
        Some(u - 48)
    } else if 97 <= u && u <= 102 {
        Some(u - 87)
    } else if 65 <= u && u <= 70 {
        Some(u - 55)
    } else {
        None
    }
}

/// Relies on char::from_u32: yields the character with the given code
/// exactly when the code is a Unicode scalar value (not a surrogate, not
/// above the Unicode range).
#[verifier::external_body]
fn char_of_u32(u: u32) -> (r: Option<char>)
    ensures
        r == if u < 0xd800 || (0xe000 <= u && u <= 0x10ffff) {
            Some((u as char))
        } else {
            None::<char>
        },
{
    char::from_u32(u)
}

/// Executable form of `parse_string_spec`.
fn parse_string_x(s: &Vec<char>, i: usize) -> (r: Option<(Vec<char>, usize)>)
    requires
        i <= s@.len(),
    ensures
        match r {
            Some((t, j)) => parse_string_spec(s@, i as int) == Some((t@, j as int)) && i < j
                <= s@.len(),
            None => parse_string_spec(s@, i as int) is None,
        },
{
    if !(i < s.len()) {
        return None;
    }
    if s[i] != '"' {
        return None;
    }
    let mut acc: Vec<char> = Vec::new();
    let mut cur = i + 1;
    loop
        invariant
            i + 1 <= cur <= s@.len(),
            parse_str_rec(s@, i as int + 1, Seq::empty()) == parse_str_rec(
                s@,
                cur as int,
                acc@,
            ),
        ensures
            cur < s@.len(),
            parse_str_rec(s@, i as int + 1, Seq::empty()) == Some((acc@, cur as int + 1)),
        decreases s@.len() - cur,
    {
        if !(cur < s.len()) {
            proof {
                assert(parse_str_rec(s@, cur as int, acc@) is None);
            }
            return None;
        }
        let c = s[cur];
        if c == '"' {
            break ;
        } else if c == '\\' {
            if !(cur + 1 < s.len()) {
                return None;
            }
            let e = s[cur + 1];
            if e == '"' {
                acc.push('"');
                cur = cur + 2;
            } else if e == '\\' {
                acc.push('\\');
                cur = cur + 2;
            } else if e == '/' {
                acc.push('/');
                cur = cur + 2;
            } else if e == 'b' {
                acc.push('\u{8}');
                cur = cur + 2;
            } else if e == 'f' {
                acc.push('\u{c}');
                cur = cur + 2;
            } else if e == 'n' {
                acc.push('\n');
                cur = cur + 2;
            } else if e == 'r' {
                acc.push('\r');
                cur = cur + 2;
            } else if e == 't' {
                acc.push('\t');
                cur = cur + 2;
            } else if e == 'u' {
                if s.len() - cur < 6 {
                    return None;
                }
                let h1 = hex_val_of(s[cur + 2]);
                let h2 = hex_val_of(s[cur + 3]);
                let h3 = hex_val_of(s[cur + 4]);
                let h4 = hex_val_of(s[cur + 5]);
                match (h1, h2, h3, h4) {
                    (Some(v1), Some(v2), Some(v3), Some(v4)) => {
                        let code = v1 * 4096 + v2 * 256 + v3 * 16 + v4;
                        if 0xd800 <= code && code <= 0xdfff {
                            return None;
                        }
                        match char_of_u32(code) {
                            Some(ch) => {
                                acc.push(ch);
                                cur = cur + 6;
                            },
                            None => {
                                proof {
                                    assert(false);
                                }
                                return None;
                            },
                        }
                    },
                    _ => {
                        return None;
                    },
                }
            } else {
                return None;
            }
        } else if (c as u32) < 32 {
            return None;
        } else {
            acc.push(c);
            cur = cur + 1;
        }
    }
    Some((acc, cur + 1))
}

/// Whether two character vectors hold the same characters.
fn chars_eq(a: &Vec<char>, b: &Vec<char>) -> (r: bool)
    ensures
        r == (a@ == b@),
{
    if a.len() != b.len() {
        proof {
            assert(a@ != b@);
        }
        return false;
    }
    let mut i: usize = 0;
    while i < a.len()
        invariant
            i <= a@.len(),
            a@.len() == b@.len(),
            forall|t: int| 0 <= t < i ==> a@[t] == b@[t],
        decreases a@.len() - i,
    {
        if a[i] != b[i] {
            proof {
                assert(a@ != b@);
            }
            return false;
        }
        i = i + 1;
    }
    proof {
        assert(a@ =~= b@);
    }
    true
}

/// Executable form of `parse_members_rec` started with no fields seen.
fn parse_members_x(s: &Vec<char>, start: usize) -> (r: Option<(u64, u16, Vec<char>, usize)>)
    requires
        start <= s@.len(),
    ensures
        match r {
            Some((id, st, b, j)) => parse_members_rec(s@, start as int, None, None, None) == Some(
                ((id, st, b@), j as int),
            ) && j <= s@.len(),
            None => parse_members_rec(s@, start as int, None, None, None) is None,
        },
{
    let mut idv: Option<u64> = None;
    let mut stv: Option<u16> = None;
    let mut bodyv: Option<Vec<char>> = None;
    let mut cur = start;
    let rid_lit = crate::codec::chars_of("request_id");
    let status_lit = crate::codec::chars_of("status");
    let body_lit = crate::codec::chars_of("body");
    loop
        invariant
            cur <= s@.len(),
            rid_lit@ == "request_id"@,
            status_lit@ == "status"@,
            body_lit@ == "body"@,
            parse_members_rec(s@, start as int, None, None, None) == parse_members_rec(
                s@,
                cur as int,
                idv,
                stv,
                body_opt_view(bodyv),
            ),
        decreases missing_count(idv, stv, body_opt_view(bodyv)),
    {
        let ghost pre_state = (cur as int, idv, stv, body_opt_view(bodyv));
        let k = skip_ws_x(s, cur);
        let key_res = parse_string_x(s, k);
        match key_res {
            None => {
                return None;
            },
            Some((key, a)) => {
                let b = skip_ws_x(s, a);
                if !(b < s.len()) {
                    return None;
                }
                if s[b] != ':' {
                    return None;
                }
                let c0 = skip_ws_x(s, b + 1);
                let mut next_id = idv;
                let mut next_st = stv;
                let mut next_body_set = false;
                let mut d: usize = 0;
                let mut parsed_body: Option<Vec<char>> = None;
                if chars_eq(&key, &rid_lit) {
                    if idv.is_some() {
                        return None;
                    }
                    match parse_number_x(s, c0) {
                        None => {
                            return None;
                        },
                        Some((n, dd)) => {
                            next_id = Some(n);
                            d = dd;
                        },
                    }
                } else if chars_eq(&key, &status_lit) {
                    if stv.is_some() {
                        return None;
                    }
                    match parse_number_x(s, c0) {
                        None => {
                            return None;
                        },
                        Some((n, dd)) => {
                            if n <= 65535 {
                                next_st = Some(n as u16);
                                d = dd;
                            } else {
                                return None;
                            }
                        },
                    }
                } else if chars_eq(&key, &body_lit) {
                    if bodyv.is_some() {
                        return None;
                    }
                    match parse_string_x(s, c0) {
                        None => {
                            return None;
                        },
                        Some((t, dd)) => {
                            parsed_body = Some(t);
                            next_body_set = true;
                            d = dd;
                        },
                    }
                } else {
                    return None;
                }
                let next_body = if next_body_set {
                    parsed_body
                } else {
                    bodyv
                };
                proof {
                    assert(parse_members_rec(s@, pre_state.0, pre_state.1, pre_state.2, pre_state.3)
                        == parse_members_sep(
                        s@,
                        d as int,
                        next_id,
                        next_st,
                        body_opt_view(next_body),
                    ));
                }
                let e = skip_ws_x(s, d);
                if e < s.len() {
                    let sep = s[e];
                    if sep == ',' {
                        idv = next_id;
                        stv = next_st;
                        bodyv = next_body;
                        cur = e + 1;
                    } else if sep == '}' {
                        match (next_id, next_st, next_body) {
                            (Some(id_out), Some(st_out), Some(b_out)) => {
                                return Some((id_out, st_out, b_out, e + 1));
                            },
                            _ => {
                                return None;
                            },
                        }
                    } else {
                        return None;
                    }
                } else {
                    return None;
                }
            },
        }
    }
}

/// The view of an optional character vector.
pub open spec fn body_opt_view(o: Option<Vec<char>>) -> Option<Seq<char>> {
    match o {
        None => None,
        Some(v) => Some(v@),
    }
}

/// A run of digits, followed by no digit, ends exactly where the digits do.
proof fn lemma_digit_run_end_past(s: Seq<char>, i: int, j: int)
    requires
        0 <= i <= j <= s.len(),
        forall|t: int| i <= t < j ==> is_digit_char(#[trigger] s[t]),
        j == s.len() || !is_digit_char(s[j]),
    ensures
        digit_run_end(s, i) == j,
    decreases j - i,
{
    if i < j {
        assert(is_digit_char(s[i]));
        lemma_digit_run_end_past(s, i + 1, j);
    }
}

/// Round trip for numbers: parsing at the decimal rendering of `n`,
/// followed by anything but a digit, yields `n` and stops just past it.
pub proof fn lemma_parse_number_of_dec(s: Seq<char>, i: int, n: u64)
    requires
        0 <= i,
        i + dec_rep(n as nat).len() <= s.len(),
        s.subrange(i, i + dec_rep(n as nat).len()) == dec_rep(n as nat),
        i + dec_rep(n as nat).len() == s.len() || !is_digit_char(s[i + dec_rep(n as nat).len()]),
    ensures
        parse_number_spec(s, i) == Some((n, i + dec_rep(n as nat).len())),
{
    let rep = dec_rep(n as nat);
    let l = rep.len() as int;
    lemma_dec_rep_digits(n as nat);
    assert forall|t: int| i <= t < i + l implies is_digit_char(#[trigger] s[t]) by {
        assert(s.subrange(i, i + l)[t - i] == s[t]);
        assert(rep[t - i] == s[t]);
    }
    assert(s.subrange(i, i + l)[0] == s[i]);
    assert(s[i] == rep[0]);
    if n == 0 {
        lemma_digit_char_val(0);
        assert(digit_val(s[i]) == 0);
    } else {
        lemma_dec_rep_first(n as nat);
        assert(digit_val(s[i]) >= 1);
        lemma_digit_run_end_past(s, i, i + l);
        lemma_seq_to_nat_dec_rep(n as nat);
        assert(seq_to_nat(s.subrange(i, i + l)) == n as nat);
    }
}

/// The value of a hexadecimal digit character is the digit.
proof fn lemma_hex_char_val(d: nat)
    requires
        d < 16,
    ensures
        is_hex_char(hex_char(d)),
        hex_val(hex_char(d)) == d,
{
}

/// A character that stands for itself in a JSON string.
pub open spec fn plain_char(c: char) -> bool {
    c != '"' && c != '\\' && (c as u32) >= 32
}

/// Escaping a sequence of plain characters changes nothing.
pub proof fn lemma_escape_plain(t: Seq<char>)
    requires
        forall|k: int| 0 <= k < t.len() ==> plain_char(#[trigger] t[k]),
    ensures
        escape_seq(t) == t,
    decreases t.len(),
{
    if t.len() == 0 {
        assert(escape_seq(t) =~= t);
    } else {
        assert(plain_char(t[0]));
        assert(escape_char(t[0]) == seq![t[0]]);
        assert forall|k: int| 0 <= k < t.drop_first().len() implies plain_char(
            #[trigger] t.drop_first()[k],
        ) by {
            assert(t.drop_first()[k] == t[k + 1]);
        }
        lemma_escape_plain(t.drop_first());
        assert(seq![t[0]] + t.drop_first() =~= t);
    }
}

/// Round trip for strings: parsing just past an opening quote, over the
/// escaped form of `body` followed by the closing quote, recovers `body`.
#[verifier::rlimit(100)]
pub proof fn lemma_parse_str_of_escaped(s: Seq<char>, i: int, body: Seq<char>, acc: Seq<char>)
    requires
        0 <= i,
        i + escape_seq(body).len() + 1 <= s.len(),
        s.subrange(i, i + escape_seq(body).len() + 1) == escape_seq(body).push('"'),
    ensures
        parse_str_rec(s, i, acc) == Some((acc + body, i + escape_seq(body).len() + 1)),
    decreases body.len(),
{
    let esc = escape_seq(body);
    assert forall|k: int| 0 <= k < esc.len() + 1 implies s[i + k] == esc.push('"')[k] by {
        assert(s.subrange(i, i + esc.len() + 1)[k] == s[i + k]);
    }
    if body.len() == 0 {
        assert(esc.len() == 0);
        assert(esc.push('"')[0] == '"');
        assert(s.subrange(i, i + esc.len() + 1)[0] == s[i]);
        assert(s[i] == '"');
        assert(acc + body =~= acc);
    } else {
        let c = body[0];
        let rest = body.drop_first();
        assert(esc == escape_char(c) + escape_seq(rest));
        let ec = escape_char(c);
        let el = ec.len() as int;
        let rl = escape_seq(rest).len() as int;
        assert forall|k: int| 0 <= k < el implies s[i + k] == ec[k] by {
            assert(esc.push('"')[k] == esc[k]);
            assert(esc[k] == ec[k]);
        }
        assert(s.subrange(i + el, i + el + rl + 1) =~= escape_seq(rest).push('"')) by {
            assert forall|k: int| 0 <= k < rl + 1 implies s[i + el + k] == escape_seq(rest).push(
                '"',
            )[k] by {
                assert(s[i + el + k] == esc.push('"')[el + k]);
                if k < rl {
                    assert(esc.push('"')[el + k] == esc[el + k]);
                    assert(esc[el + k] == escape_seq(rest)[k]);
                }
            }
        }
        lemma_parse_str_of_escaped(s, i + el, rest, acc.push(c));
        assert(acc.push(c) + rest =~= acc + body);
        if c == '"' || c == '\\' || c == '\u{8}' || c == '\u{c}' || c == '\n' || c == '\r' || c
            == '\t' {
            assert(s[i] == '\\');
            assert(parse_str_rec(s, i, acc) == parse_str_rec(s, i + 2, acc.push(c)));
        } else if (c as u32) < 32 {
            assert(s[i] == '\\');
            assert(s[i + 1] == 'u');
            assert(s[i + 2] == '0');
            assert(s[i + 3] == '0');
            assert(s[i + 4] == hex_char(((c as u32) / 16) as nat));
            assert(s[i + 5] == hex_char(((c as u32) % 16) as nat));
            lemma_hex_char_val(((c as u32) / 16) as nat);
            lemma_hex_char_val(((c as u32) % 16) as nat);
            lemma_digit_char_val(0);
            assert(hex_val('0') == 0);
            let code = hex_val(s[i + 2]) * 4096 + hex_val(s[i + 3]) * 256 + hex_val(s[i + 4]) * 16
                + hex_val(s[i + 5]);
            assert(code == c as u32);
            vstd::utf8::char_u32_cast(c, c as u32);
            assert(((code as u32) as char) == c);
            assert(parse_str_rec(s, i, acc) == parse_str_rec(s, i + 6, acc.push(c)));
        } else {
            assert(ec == seq![c]);
            assert(s[i] == ec[0]);
            assert(s[i] == c);
            assert(parse_str_rec(s, i, acc) == parse_str_rec(s, i + 1, acc.push(c)));
        }
    }
}

/// `skip_ws` does not move off a non-whitespace character or the end.
proof fn lemma_skip_ws_at(s: Seq<char>, i: int)
    requires
        0 <= i <= s.len(),
        i == s.len() || !is_ws_char(s[i]),
    ensures
        skip_ws(s, i) == i,
{
}

/// Round trip: a response message rendered in the response wire format
/// parses back to exactly that message. Delivering such a payload for a
/// registered id therefore resolves that id with exactly the rendered
/// status and body.
#[verifier::rlimit(100)]
pub proof fn lemma_response_round_trip(id: u64, status: u16, body: Seq<char>)
    ensures
        parse_response_spec(encode_response_spec(id, status, body)) == Some((id, status, body)),
{
    reveal_strlit("{\"request_id\":");
    reveal_strlit(",\"status\":");
    reveal_strlit(",\"body\":\"");
    reveal_strlit("\"}");
    reveal_strlit("request_id");
    reveal_strlit("status");
    reveal_strlit("body");
    let l1 = "{\"request_id\":"@;
    let d1 = dec_rep(id as nat);
    let l2 = ",\"status\":"@;
    let d2 = dec_rep(status as nat);
    let l3 = ",\"body\":\""@;
    let e = escape_seq(body);
    let l4 = "\"}"@;
    let s = encode_response_spec(id, status, body);
    assert(s == l1 + d1 + l2 + d2 + l3 + e + l4);
    lemma_dec_rep_digits(id as nat);
    lemma_dec_rep_digits(status as nat);
    let n1 = d1.len() as int;
    let n2 = d2.len() as int;
    let ne = e.len() as int;
    let p1 = 14 + n1;
    let p2 = p1 + 10 + n2;
    let p3 = p2 + 9 + ne;
    assert(l1.len() == 14);
    assert(l2.len() == 10);
    assert(l3.len() == 9);
    assert(l4.len() == 2);
    assert(s.len() == p3 + 2);
    assert forall|k: int| 0 <= k < 14 implies s[k] == l1[k] by {}
    assert forall|k: int| 0 <= k < n1 implies s[14 + k] == d1[k] by {}
    assert forall|k: int| 0 <= k < 10 implies s[p1 + k] == l2[k] by {}
    assert forall|k: int| 0 <= k < n2 implies s[p1 + 10 + k] == d2[k] by {}
    assert forall|k: int| 0 <= k < 9 implies s[p2 + k] == l3[k] by {}
    assert forall|k: int| 0 <= k < ne implies s[p2 + 9 + k] == e[k] by {}
    assert forall|k: int| 0 <= k < 2 implies s[p3 + k] == l4[k] by {}
    let key1 = "request_id"@;
    let key2 = "status"@;
    let key3 = "body"@;
    // the three keys escape to themselves
    assert forall|k: int| 0 <= k < key1.len() implies plain_char(#[trigger] key1[k]) by {}
    assert forall|k: int| 0 <= k < key2.len() implies plain_char(#[trigger] key2[k]) by {}
    assert forall|k: int| 0 <= k < key3.len() implies plain_char(#[trigger] key3[k]) by {}
    lemma_escape_plain(key1);
    lemma_escape_plain(key2);
    lemma_escape_plain(key3);
    // first member: "request_id": <id>
    assert(s.subrange(2, 13) =~= escape_seq(key1).push('"'));
    lemma_parse_str_of_escaped(s, 2, key1, Seq::empty());
    assert(Seq::empty() + key1 =~= key1);
    lemma_skip_ws_at(s, 1);
    lemma_skip_ws_at(s, 13);
    lemma_skip_ws_at(s, 14);
    assert(s.subrange(14, 14 + n1) =~= d1);
    assert(!is_digit_char(s[p1]));
    lemma_parse_number_of_dec(s, 14, id);
    lemma_skip_ws_at(s, p1);
    assert(parse_members_rec(s, 1, None, None, None) == parse_members_sep(
        s,
        p1,
        Some(id),
        None,
        None,
    ));
    assert(parse_members_sep(s, p1, Some(id), None, None) == parse_members_rec(
        s,
        p1 + 1,
        Some(id),
        None,
        None,
    ));
    // second member: "status": <status>
    assert(s.subrange(p1 + 2, p1 + 9) =~= escape_seq(key2).push('"'));
    lemma_parse_str_of_escaped(s, p1 + 2, key2, Seq::empty());
    assert(Seq::empty() + key2 =~= key2);
    lemma_skip_ws_at(s, p1 + 1);
    lemma_skip_ws_at(s, p1 + 9);
    lemma_skip_ws_at(s, p1 + 10);
    assert(key2 != key1);
    assert(s.subrange(p1 + 10, p1 + 10 + n2) =~= d2);
    assert(!is_digit_char(s[p2]));
    lemma_parse_number_of_dec(s, p1 + 10, status as u64);
    lemma_skip_ws_at(s, p2);
    assert(parse_members_rec(s, p1 + 1, Some(id), None, None) == parse_members_sep(
        s,
        p2,
        Some(id),
        Some(status),
        None,
    ));
    assert(parse_members_sep(s, p2, Some(id), Some(status), None) == parse_members_rec(
        s,
        p2 + 1,
        Some(id),
        Some(status),
        None,
    ));
    // third member: "body": "<body>"
    assert(s.subrange(p2 + 2, p2 + 7) =~= escape_seq(key3).push('"'));
    lemma_parse_str_of_escaped(s, p2 + 2, key3, Seq::empty());
    assert(Seq::empty() + key3 =~= key3);
    lemma_skip_ws_at(s, p2 + 1);
    lemma_skip_ws_at(s, p2 + 7);
    lemma_skip_ws_at(s, p2 + 8);
    assert(key3 != key1);
    assert(key3 != key2);
    assert(s.subrange(p2 + 9, p3 + 1) =~= e.push('"'));
    lemma_parse_str_of_escaped(s, p2 + 9, body, Seq::empty());
    assert(Seq::empty() + body =~= body);
    lemma_skip_ws_at(s, p3 + 1);
    assert(parse_members_rec(s, p2 + 1, Some(id), Some(status), None) == parse_members_sep(
        s,
        p3 + 1,
        Some(id),
        Some(status),
        Some(body),
    ));
    assert(parse_members_sep(s, p3 + 1, Some(id), Some(status), Some(body)) == Some((
        (id, status, body),
        p3 + 2,
    )));
    // the whole payload
    lemma_skip_ws_at(s, 0);
    lemma_skip_ws_at(s, s.len() as int);
    assert(parse_response_spec(s) == Some((id, status, body)));
}

/// Parses one inbound response payload against the response wire grammar.
/// Yields the message exactly when the payload is inside the grammar.
pub fn parse_response(s: &Vec<char>) -> (r: Option<InboundResponseMessage>)
    ensures
        match r {
            Some(m) => parse_response_spec(s@) == Some((m.request_id, m.status, m.body@)),
            None => parse_response_spec(s@) is None,
        },
{
    let i = skip_ws_x(s, 0);
    if !(i < s.len()) {
        return None;
    }
    if s[i] != '{' {
        return None;
    }
    match parse_members_x(s, i + 1) {
        None => None,
        Some((id, st, bv, j)) => {
            let k = skip_ws_x(s, j);
            if k == s.len() {
                Some(
                    InboundResponseMessage {
                        request_id: id,
                        status: st,
                        body: crate::codec::string_from_chars(bv),
                    },
                )
            } else {
                None
            }
        },
    }
}

} // verus!
