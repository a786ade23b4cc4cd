//! Splitting request paths and pattern strings into slash-separated segments,
//! and joining segments back together (used by catch-all captures).

use vstd::prelude::*;
use vstd::string::StrSliceExecFns;
use vstd::string::StringExecFns;

verus! {

/// The segments of `s` when split on `'/'`. Splitting the empty string gives
/// one empty segment; every separator ends the current segment and opens a
/// new one, so `"/a/"` has three segments: `""`, `"a"`, `""`.
pub open spec fn split_slash(s: Seq<char>) -> Seq<Seq<char>>
    decreases s.len(),
{
    if s.len() == 0 {
        seq![Seq::<char>::empty()]
    } else if s.last() == '/' {
        split_slash(s.drop_last()).push(Seq::<char>::empty())
    } else {
        let parts = split_slash(s.drop_last());
        parts.update(parts.len() - 1, parts.last().push(s.last()))
    }
}

/// The segments joined with a single `'/'` between neighbours; the inverse
/// direction of `split_slash` on its range.
pub open spec fn join_slash(parts: Seq<Seq<char>>) -> Seq<char>
    decreases parts.len(),
{
    if parts.len() == 0 {
        Seq::<char>::empty()
    } else if parts.len() == 1 {
        parts[0]
    } else {
        join_slash(parts.drop_last()) + seq!['/'] + parts.last()
    }
}

/// The views of a sequence of owned strings.
pub open spec fn views(parts: Seq<String>) -> Seq<Seq<char>> {
    parts.map_values(|p: String| p@)
}

pub proof fn lemma_split_slash_nonempty(s: Seq<char>)
    ensures
        split_slash(s).len() >= 1,
    decreases s.len(),
{
    if s.len() != 0 && s.last() != '/' {
        lemma_split_slash_nonempty(s.drop_last());
    }
}

/// Splits a path (or pattern) string on `'/'` into owned segments.
pub fn split_path(s: &str) -> (segments: Vec<String>)
    ensures
        views(segments@) == split_slash(s@),
{
    let n: usize = s.unicode_len();
    let mut segments: Vec<String> = Vec::new();
    let mut start: usize = 0;
    let mut i: usize = 0;
    proof {
        assert(views(segments@).push(s@.subrange(0, 0)) =~~= split_slash(s@.take(0)));
    }
    while i < n
        invariant
            i <= n,
            start <= i,
            n == s@.len(),
            views(segments@).push(s@.subrange(start as int, i as int)) == split_slash(
                s@.take(i as int),
            ),
        decreases n - i,
    {
        proof {
            assert(s@.take(i + 1).drop_last() =~= s@.take(i as int));
        }
        if s.get_char(i) == '/' {
            let seg = s.substring_char(start, i).to_owned();
            segments.push(seg);
            proof {
                assert(views(segments@).push(s@.subrange(i + 1, i + 1)) =~~= split_slash(
                    s@.take(i + 1),
                ));
            }
            start = i + 1;
        } else {
            proof {
                lemma_split_slash_nonempty(s@.take(i as int));
                assert(split_slash(s@.take(i as int)).last() == s@.subrange(
                    start as int,
                    i as int,
                ));
                assert(s@.subrange(start as int, i as int).push(s@[i as int]) =~= s@.subrange(
                    start as int,
                    i + 1,
                ));
                assert(views(segments@).push(s@.subrange(start as int, i + 1)) =~~= split_slash(
                    s@.take(i + 1),
                ));
            }
        }
        i = i + 1;
    }
    let last = s.substring_char(start, n).to_owned();
    segments.push(last);
    proof {
        assert(s@.take(n as int) =~= s@);
        assert(views(segments@) =~~= split_slash(s@));
    }
    segments
}

/// Joins `segments[from..]` with `'/'`, the value a catch-all parameter
/// captures from the remaining path segments.
pub fn join_from(segments: &Vec<String>, from: usize) -> (joined: String)
    requires
        from <= segments@.len(),
    ensures
        joined@ == join_slash(views(segments@).skip(from as int)),
{
    let mut joined = String::new();
    let mut i: usize = from;
    while i < segments.len()
        invariant
            from <= i <= segments@.len(),
            joined@ == join_slash(views(segments@).subrange(from as int, i as int)),
        decreases segments@.len() - i,
    {
        proof {
            assert(views(segments@).subrange(from as int, i + 1).drop_last() =~= views(
                segments@,
            ).subrange(from as int, i as int));
            assert(views(segments@).subrange(from as int, i + 1).last() == segments@[i as int]@);
        }
        if i > from {
            joined.append("/");
            proof {
                reveal_strlit("/");
            }
        }
        joined.append(segments[i].as_str());
        proof {
            assert(joined@ =~= join_slash(views(segments@).subrange(from as int, i + 1)));
        }
        i = i + 1;
    }
    proof {
        assert(views(segments@).subrange(from as int, segments@.len() as int) =~= views(
            segments@,
        ).skip(from as int));
    }
    joined
}

/// Byte-for-byte equality of two owned strings.
pub fn string_eq(a: &String, b: &String) -> (equal: bool)
    ensures
        equal == (a@ == b@),
{
    a.eq(b)
}

} // verus!
