use vstd::prelude::*;
use crate::codec::{chars_of, push_literal, string_from_chars};
use crate::digits::{dec_rep, push_decimal};

verus! {

/// The index of the last dot at or before `j`, never counting a dot in the
/// leading position, which marks a hidden name rather than an extension.
pub open spec fn last_dot_at_or_before(s: Seq<char>, j: int) -> Option<int>
    decreases j
    when j < s.len()
{
    if j <= 0 {
        None
    } else if s[j] == '.' {
        Some(j)
    } else {
        last_dot_at_or_before(s, j - 1)
    }
}

/// Where a file name splits into stem and extension: at its last dot,
/// unless the name is empty, has no dot, or only a leading one.
pub open spec fn split_point(s: Seq<char>) -> Option<int> {
    if s.len() == 0 {
        None
    } else {
        last_dot_at_or_before(s, s.len() - 1)
    }
}

/// The numbered alternative tried for a file name whose first choice is
/// taken: the stem, the attempt number in parentheses, a dot, and the
/// extension (the dot stands even when the extension is empty).
pub open spec fn numbered_candidate_spec(stem: Seq<char>, ext: Seq<char>, counter: u64) -> Seq<
    char,
> {
    stem + " ("@ + dec_rep(counter as nat) + ")."@ + ext
}

/// Splits a file name into stem and extension at its last dot; a name with
/// no dot, or only a leading one, is all stem and has no extension.
pub fn split_filename(name: &String) -> (r: (String, String))
    ensures
        match split_point(name@) {
            Some(i) => r.0@ == name@.take(i) && r.1@ == name@.skip(i + 1),
            None => r.0@ == name@ && r.1@ == Seq::<char>::empty(),
        },
{
    let cs = chars_of(name.as_str());
    if cs.len() == 0 {
        return (String::new(), String::new());
    }
    let mut j: usize = cs.len() - 1;
    while j > 0 && cs[j] != '.'
        invariant
            0 <= j < cs@.len(),
            cs@ == name@,
            last_dot_at_or_before(name@, name@.len() - 1) == last_dot_at_or_before(
                name@,
                j as int,
            ),
        decreases j,
    {
        j = j - 1;
    }
    if j == 0 {
        proof {
            assert(last_dot_at_or_before(name@, 0) is None);
        }
        let mut stem: Vec<char> = Vec::new();
        let mut whole = chars_of(name.as_str());
        stem.append(&mut whole);
        proof {
            assert(stem@ =~= name@);
        }
        return (string_from_chars(stem), String::new());
    }
    let mut stem: Vec<char> = Vec::new();
    let mut ext: Vec<char> = Vec::new();
    let mut t: usize = 0;
    while t < j
        invariant
            t <= j < cs@.len(),
            cs@ == name@,
            stem@ == name@.take(t as int),
        decreases j - t,
    {
        stem.push(cs[t]);
        proof {
            assert(name@.take(t as int + 1) =~= name@.take(t as int).push(name@[t as int]));
        }
        t = t + 1;
    }
    let mut u: usize = j + 1;
    while u < cs.len()
        invariant
            j + 1 <= u <= cs@.len(),
            cs@ == name@,
            ext@ == name@.subrange(j as int + 1, u as int),
        decreases cs@.len() - u,
    {
        ext.push(cs[u]);
        proof {
            assert(name@.subrange(j as int + 1, u as int + 1) =~= name@.subrange(
                j as int + 1,
                u as int,
            ).push(name@[u as int]));
        }
        u = u + 1;
    }
    proof {
        assert(ext@ =~= name@.skip(j as int + 1));
    }
    (string_from_chars(stem), string_from_chars(ext))
}

/// Builds the numbered alternative file name for one attempt.
pub fn numbered_candidate(stem: &String, ext: &String, counter: u64) -> (r: String)
    ensures
        r@ == numbered_candidate_spec(stem@, ext@, counter),
{
    let mut out: Vec<char> = Vec::new();
    let mut sc = chars_of(stem.as_str());
    out.append(&mut sc);
    push_literal(&mut out, " (");
    push_decimal(&mut out, counter);
    push_literal(&mut out, ").");
    let mut ec = chars_of(ext.as_str());
    out.append(&mut ec);
    proof {
        assert(out@ =~= numbered_candidate_spec(stem@, ext@, counter));
    }
    string_from_chars(out)
}

} // verus!
