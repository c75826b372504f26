//! Request-metric labels: request paths with their ids replaced, so that a
//! label has few distinct values.

use vstd::prelude::*;
use vstd::string::*;
use crate::text::chars_of;

verus! {

broadcast use vstd::std_specs::vec::group_vec_axioms;

/// An ASCII hexadecimal digit.
pub open spec fn is_hex_digit(c: char) -> bool {
    ('0' <= c && c <= '9') || ('a' <= c && c <= 'f') || ('A' <= c && c <= 'F')
}

/// Where the hyphens of a UUID's text stand: it is grouped 8-4-4-4-12.
pub open spec fn uuid_hyphen_at(i: int) -> bool {
    i == 8 || i == 13 || i == 18 || i == 23
}

/// The character a UUID's text may hold at position `i`: a hyphen between
/// the groups, a hex digit elsewhere.
pub open spec fn uuid_char_at(i: int, c: char) -> bool {
    if uuid_hyphen_at(i) {
        c == '-'
    } else {
        is_hex_digit(c)
    }
}

/// A path segment that is a UUID: 36 characters, hex digits in groups of
/// 8-4-4-4-12 separated by `-`.
pub open spec fn looks_like_uuid(seg: Seq<char>) -> bool {
    seg.len() == 36 && forall|i: int| 0 <= i < seg.len() ==> uuid_char_at(i, #[trigger] seg[i])
}

/// A path segment as a label shows it.
pub open spec fn label_segment(seg: Seq<char>) -> Seq<char> {
    if looks_like_uuid(seg) {
        "{id}"@
    } else {
        seg
    }
}

/// The length of the first `/`-separated segment of `s`.
pub open spec fn segment_len(s: Seq<char>) -> nat
    decreases s.len(),
{
    if s.len() == 0 || s[0] == '/' {
        0
    } else {
        1 + segment_len(s.drop_first())
    }
}

/// `path` with each `/`-separated segment that looks like a UUID replaced by
/// `{id}`.
pub open spec fn normalised_path(path: Seq<char>) -> Seq<char>
    decreases path.len(),
{
    let k = segment_len(path);
    if k >= path.len() {
        label_segment(path)
    } else {
        label_segment(path.take(k as int)) + seq!['/'] + normalised_path(path.skip(k + 1int))
    }
}

/// The `/`-separated segments of `path`, in order (`split('/')`).
pub open spec fn path_segments(path: Seq<char>) -> Seq<Seq<char>>
    decreases path.len(),
{
    let k = segment_len(path);
    if k >= path.len() {
        seq![path]
    } else {
        seq![path.take(k as int)] + path_segments(path.skip(k + 1int))
    }
}

pub(crate) proof fn lemma_segment_len(s: Seq<char>, j: int)
    requires
        0 <= j <= s.len(),
        forall|t: int| 0 <= t < j ==> s[t] != '/',
        j == s.len() || s[j] == '/',
    ensures
        segment_len(s) == j,
    decreases j,
{
    if j > 0 {
        lemma_segment_len(s.drop_first(), j - 1);
    }
}

pub(crate) proof fn lemma_segment_len_le(s: Seq<char>)
    ensures
        segment_len(s) <= s.len(),
    decreases s.len(),
{
    if s.len() > 0 && s[0] != '/' {
        lemma_segment_len_le(s.drop_first());
    }
}

fn segment_looks_like_uuid(cs: &Vec<char>, start: usize, end: usize) -> (r: bool)
    requires
        start <= end <= cs@.len(),
    ensures
        r == looks_like_uuid(cs@.subrange(start as int, end as int)),
{
    if end - start != 36 {
        return false;
    }
    let mut k: usize = start;
    while k < end
        invariant
            start <= k <= end <= cs@.len(),
            end - start == 36,
            forall|i: int| start <= i < k ==> uuid_char_at(i - start, #[trigger] cs@[i]),
        decreases end - k,
    {
        let c = cs[k];
        let at = k - start;
        let ok = if at == 8 || at == 13 || at == 18 || at == 23 {
            c == '-'
        } else {
            ('0' <= c && c <= '9') || ('a' <= c && c <= 'f') || ('A' <= c && c <= 'F')
        };
        if !ok {
            assert(cs@.subrange(start as int, end as int)[k - start] == c);
            return false;
        }
        k = k + 1;
    }
    assert forall|i: int| 0 <= i < cs@.subrange(start as int, end as int).len() implies uuid_char_at(
        i,
        #[trigger] cs@.subrange(start as int, end as int)[i],
    ) by {
        assert(cs@.subrange(start as int, end as int)[i] == cs@[start + i]);
    }
    true
}

/// Replace UUID segments in paths with `{id}` to reduce label cardinality.
pub fn normalise_path(path: &str) -> (r: String)
    ensures
        r@ == normalised_path(path@),
{
    proof {
        reveal_strlit("{id}");
        reveal_strlit("/");
    }
    let cs = chars_of(path);
    let n = cs.len();
    let mut out = String::new();
    let mut start: usize = 0;
    assert(path@.skip(0) =~= path@);
    assert(out@ + normalised_path(path@) =~= normalised_path(path@));
    loop
        invariant
            cs@ == path@,
            n == cs@.len(),
            start <= n,
            out@ + normalised_path(path@.skip(start as int)) == normalised_path(path@),
        decreases n - start,
    {
        let mut j: usize = start;
        while j < n && cs[j] != '/'
            invariant
                cs@ == path@,
                n == cs@.len(),
                start <= j <= n,
                forall|t: int| start <= t < j ==> cs@[t] != '/',
            decreases n - j,
        {
            j = j + 1;
        }
        let ghost rest = path@.skip(start as int);
        proof {
            lemma_segment_len(rest, j - start);
            assert(rest.take(j - start) =~= cs@.subrange(start as int, j as int));
        }
        let ghost out0 = out@;
        let ghost k = j - start;
        proof {
            reveal_strlit("{id}");
        }
        let seg = path.substring_char(start, j);
        if segment_looks_like_uuid(&cs, start, j) {
            out.append("{id}");
        } else {
            out.append(seg);
        }
        assert(out@ == out0 + label_segment(rest.take(k)));
        if j == n {
            assert(rest =~= cs@.subrange(start as int, j as int));
            assert(rest.take(k) =~= rest);
            assert(normalised_path(rest) == label_segment(rest));
            return out;
        }
        let ghost out1 = out@;
        out.append("/");
        proof {
            reveal_strlit("/");
            assert("/"@ =~= seq!['/']);
            assert(out@ == out1 + seq!['/']);
            assert(rest.skip(k + 1) =~= path@.skip(j + 1));
            assert(normalised_path(rest) == label_segment(rest.take(k)) + seq!['/'] + normalised_path(
                rest.skip(k + 1),
            ));
            assert(out@ == out0 + label_segment(rest.take(k)) + seq!['/']);
            assert(out@ + normalised_path(path@.skip(j + 1)) =~= out0 + normalised_path(rest));
        }
        start = j + 1;
    }
}

} // verus!
