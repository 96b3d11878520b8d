//! `${NAME}` placeholders in configuration text.
//!
//! The configuration file may refer to environment variables as `${NAME}`.
//! Expansion repeatedly finds the first placeholder, looks the variable up, and
//! splices its value (empty when unset) into the text; the lookup itself is the
//! caller's.  Text is handled as UTF-8 bytes: the delimiters are ASCII, so the
//! splice points are character boundaries.

use vstd::prelude::*;

verus! {

/// `$`
pub const DOLLAR: u8 = 0x24;

/// `{`
pub const OPEN_BRACE: u8 = 0x7B;

/// `}`
pub const CLOSE_BRACE: u8 = 0x7D;

/// A `${` starts at `i`.
pub open spec fn opens_at(t: Seq<u8>, i: int) -> bool {
    0 <= i && i + 1 < t.len() && t[i] == DOLLAR && t[i + 1] == OPEN_BRACE
}

/// A `}` is at `k`.
pub open spec fn closes_at(t: Seq<u8>, k: int) -> bool {
    0 <= k < t.len() && t[k] == CLOSE_BRACE
}

/// `start..=end` is the placeholder that expansion handles next: the first `${`
/// of the text, and the first `}` from there on.
pub open spec fn is_next_placeholder(t: Seq<u8>, start: int, end: int) -> bool {
    &&& opens_at(t, start)
    &&& forall|i: int| 0 <= i < start ==> !opens_at(t, i)
    &&& start <= end
    &&& closes_at(t, end)
    &&& forall|k: int| start <= k < end ==> !closes_at(t, k)
}

/// No `${` of the text is followed by a `}`: nothing is left to expand.
pub open spec fn fully_expanded(t: Seq<u8>) -> bool {
    forall|s: int, k: int| opens_at(t, s) && s <= k ==> !closes_at(t, k)
}

/// The position of a placeholder `${NAME}`: `start` is the `$`, `end` the `}`.
#[derive(Clone, Copy, Debug, PartialEq, Eq)]
pub struct Placeholder {
    pub start: usize,
    pub end: usize,
}

/// Finds the placeholder to expand next, if any.
pub fn find_placeholder(text: &Vec<u8>) -> (found: Option<Placeholder>)
    ensures
        found matches Some(p) ==> is_next_placeholder(text@, p.start as int, p.end as int),
        found is None ==> fully_expanded(text@),
{
    let n = text.len();
    let mut i: usize = 0;
    while n > 0 && i < n - 1
        invariant
            n == text.len(),
            forall|j: int| 0 <= j < i ==> !opens_at(text@, j),
        decreases n - i,
    {
        if text[i] == DOLLAR && text[i + 1] == OPEN_BRACE {
            let mut k: usize = i;
            while k < n
                invariant
                    n == text.len(),
                    i <= k <= n,
                    opens_at(text@, i as int),
                    forall|j: int| 0 <= j < i ==> !opens_at(text@, j),
                    forall|m: int| i <= m < k ==> !closes_at(text@, m),
                decreases n - k,
            {
                if text[k] == CLOSE_BRACE {
                    return Some(Placeholder { start: i, end: k });
                }
                k = k + 1;
            }
            proof {
                assert forall|s: int, m: int| opens_at(text@, s) && s <= m implies !closes_at(text@, m) by {
                    if s < i {
                        assert(!opens_at(text@, s));
                    }
                }
            }
            return None;
        }
        i = i + 1;
    }
    proof {
        assert forall|s: int, m: int| opens_at(text@, s) && s <= m implies !closes_at(text@, m) by {
            if s < i {
                assert(!opens_at(text@, s));
            }
        }
    }
    None
}

/// The variable name between `${` and `}`.
pub fn placeholder_name(text: &Vec<u8>, p: Placeholder) -> (name: Vec<u8>)
    requires
        is_next_placeholder(text@, p.start as int, p.end as int),
    ensures
        name@ == text@.subrange(p.start + 2, p.end as int),
{
    let mut name: Vec<u8> = Vec::new();
    let mut k: usize = p.start + 2;
    while k < p.end
        invariant
            p.start + 2 <= k <= p.end < text.len(),
            name@ == text@.subrange(p.start + 2, k as int),
        decreases p.end - k,
    {
        name.push(text[k]);
        proof {
            assert(text@.subrange(p.start + 2, k + 1) =~= text@.subrange(p.start + 2, k as int).push(text@[k as int]));
        }
        k = k + 1;
    }
    name
}

/// Replaces the placeholder `start..=end` by `value`.
pub fn substitute(text: &Vec<u8>, p: Placeholder, value: &Vec<u8>) -> (out: Vec<u8>)
    requires
        is_next_placeholder(text@, p.start as int, p.end as int),
    ensures
        out@ == text@.subrange(0, p.start as int) + value@ + text@.subrange(p.end + 1, text@.len() as int),
{
    let mut out: Vec<u8> = Vec::new();
    let mut k: usize = 0;
    while k < p.start
        invariant
            k <= p.start <= p.end < text.len(),
            out@ == text@.subrange(0, k as int),
        decreases p.start - k,
    {
        out.push(text[k]);
        proof {
            assert(text@.subrange(0, k + 1) =~= text@.subrange(0, k as int).push(text@[k as int]));
        }
        k = k + 1;
    }
    let ghost prefix = out@;
    let mut v: usize = 0;
    while v < value.len()
        invariant
            v <= value.len(),
            out@ == prefix + value@.subrange(0, v as int),
        decreases value.len() - v,
    {
        out.push(value[v]);
        proof {
            assert(value@.subrange(0, v + 1) =~= value@.subrange(0, v as int).push(value@[v as int]));
            assert(out@ =~= prefix + value@.subrange(0, v + 1));
        }
        v = v + 1;
    }
    assert(value@.subrange(0, value.len() as int) =~= value@);
    let ghost middle = out@;
    let mut k: usize = p.end + 1;
    while k < text.len()
        invariant
            p.end + 1 <= k <= text.len(),
            out@ == middle + text@.subrange(p.end + 1, k as int),
        decreases text.len() - k,
    {
        out.push(text[k]);
        proof {
            assert(text@.subrange(p.end + 1, k + 1) =~= text@.subrange(p.end + 1, k as int).push(text@[k as int]));
            assert(out@ =~= middle + text@.subrange(p.end + 1, k + 1));
        }
        k = k + 1;
    }
    out
}

/// Substitution leaves the text before the placeholder untouched, puts the
/// value right after it, and keeps everything after the `}`; the text grows by
/// the value's length less the placeholder's.
pub proof fn law_substitution_keeps_surroundings(t: Seq<u8>, start: int, end: int, value: Seq<u8>)
    requires
        is_next_placeholder(t, start, end),
    ensures
        ({
            let out = t.subrange(0, start) + value + t.subrange(end + 1, t.len() as int);
            &&& out.subrange(0, start) == t.subrange(0, start)
            &&& out.subrange(start, start + value.len()) == value
            &&& out.subrange(start + value.len(), out.len() as int) == t.subrange(end + 1, t.len() as int)
            &&& out.len() == t.len() + value.len() - (end - start + 1)
        }),
{
    let out = t.subrange(0, start) + value + t.subrange(end + 1, t.len() as int);
    assert(out.subrange(0, start) =~= t.subrange(0, start));
    assert(out.subrange(start, start + value.len()) =~= value);
    assert(out.subrange(start + value.len(), out.len() as int) =~= t.subrange(end + 1, t.len() as int));
}

} // verus!
