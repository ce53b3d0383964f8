//! The path mapper: a destination path is computed from a source path by
//! keeping only the normal path segments, optionally dropping the first one,
//! joining the rest onto an output root, and swapping a trailing `.md`
//! extension for `.html`. The same rule serves both the on-disk output
//! location and the in-body link rewrite.

use vstd::prelude::*;

verus! {

/// A segment is kept when it is a normal path component: not empty, not `.`,
/// not `..`.
pub open spec fn keep_segment(s: Seq<char>) -> bool {
    &&& s.len() > 0
    &&& !(s.len() == 1 && s[0] == '.')
    &&& !(s.len() == 2 && s[0] == '.' && s[1] == '.')
}

/// The normal segments of `p` that remain to be collected from position `i`
/// on, when the characters of the segment currently being read are `cur` and
/// the segments already collected are `acc`.
pub open spec fn segments_scan(p: Seq<char>, i: int, cur: Seq<char>, acc: Seq<Seq<char>>) -> Seq<
    Seq<char>,
>
    decreases p.len() - i,
{
    if i < 0 || i >= p.len() {
        if keep_segment(cur) {
            acc.push(cur)
        } else {
            acc
        }
    } else if p[i] == '/' {
        segments_scan(
            p,
            i + 1,
            Seq::empty(),
            if keep_segment(cur) {
                acc.push(cur)
            } else {
                acc
            },
        )
    } else {
        segments_scan(p, i + 1, cur.push(p[i]), acc)
    }
}

/// The ordered normal segments of a path: the maximal `/`-free runs, with
/// empty runs, `.` and `..` dropped.
pub open spec fn segments_of(p: Seq<char>) -> Seq<Seq<char>> {
    segments_scan(p, 0, Seq::empty(), Seq::empty())
}

/// `root` with `/` and a segment appended for each segment from `i` on.
pub open spec fn joined_from(root: Seq<char>, segs: Seq<Seq<char>>, i: int) -> Seq<char>
    decreases segs.len() - i,
{
    if i < 0 || i >= segs.len() {
        root
    } else {
        joined_from(root + seq!['/'] + segs[i], segs, i + 1)
    }
}

/// `root` with `/` and a segment appended for each segment in order.
pub open spec fn joined(root: Seq<char>, segs: Seq<Seq<char>>) -> Seq<char> {
    joined_from(root, segs, 0)
}

pub open spec fn ends_with_md(s: Seq<char>) -> bool {
    &&& s.len() >= 3
    &&& s[s.len() - 3] == '.'
    &&& s[s.len() - 2] == 'm'
    &&& s[s.len() - 1] == 'd'
}

pub open spec fn ends_with_html(s: Seq<char>) -> bool {
    &&& s.len() >= 5
    &&& s[s.len() - 5] == '.'
    &&& s[s.len() - 4] == 'h'
    &&& s[s.len() - 3] == 't'
    &&& s[s.len() - 2] == 'm'
    &&& s[s.len() - 1] == 'l'
}

pub open spec fn html_suffix() -> Seq<char> {
    seq!['.', 'h', 't', 'm', 'l']
}

/// Swap a trailing `.md` for `.html`; any other string is left unchanged.
pub open spec fn swap_md(s: Seq<char>) -> Seq<char> {
    if ends_with_md(s) {
        s.subrange(0, s.len() - 3) + html_suffix()
    } else {
        s
    }
}

/// The segments that remain after optionally dropping the first one.
pub open spec fn kept_segments(source: Seq<char>, skip_first_segment: bool) -> Seq<Seq<char>> {
    let segs = segments_of(source);
    if skip_first_segment && segs.len() > 0 {
        segs.drop_first()
    } else {
        segs
    }
}

/// The destination of `source` under `output_root`: kept segments joined onto
/// the root, with a trailing `.md` swapped for `.html`.
pub open spec fn dest_of(source: Seq<char>, output_root: Seq<char>, skip_first_segment: bool) -> Seq<
    char,
> {
    swap_md(joined(output_root, kept_segments(source, skip_first_segment)))
}

/// The extension swap touches only a trailing `.md`: a string without one, in
/// particular one that already ends in `.html`, is returned unchanged, so the
/// destination mapping never remaps an extension twice.
pub proof fn lemma_swap_md_only_trailing_md(s: Seq<char>)
    ensures
        !ends_with_md(s) ==> swap_md(s) == s,
        ends_with_html(s) ==> swap_md(s) == s,
{
}

/// The destination of a source whose joined form already carries `.html` is
/// that joined form as it stands: mapping is idempotent on the extension.
pub proof fn lemma_dest_extension_idempotent(
    source: Seq<char>,
    output_root: Seq<char>,
    skip_first_segment: bool,
)
    requires
        ends_with_html(joined(output_root, kept_segments(source, skip_first_segment))),
    ensures
        dest_of(source, output_root, skip_first_segment) == joined(
            output_root,
            kept_segments(source, skip_first_segment),
        ),
{
}

/// Checks whether the characters of `p` from `start` to `end` form a normal
/// segment, and pushes them as a new segment if they do.
fn push_if_normal(segs: &mut Vec<String>, p: &str, start: usize, end: usize)
    requires
        start <= end,
        end <= p@.len(),
    ensures
        final(segs).deep_view() == if keep_segment(p@.subrange(start as int, end as int)) {
            old(segs).deep_view().push(p@.subrange(start as int, end as int))
        } else {
            old(segs).deep_view()
        },
{
    let ghost seg = p@.subrange(start as int, end as int);
    let n = end - start;
    let mut normal = n > 0;
    if n == 1 && p.get_char(start) == '.' {
        normal = false;
    }
    if n == 2 && p.get_char(start) == '.' && p.get_char(start + 1) == '.' {
        normal = false;
    }
    assert(normal == keep_segment(seg));
    if normal {
        let piece = p.substring_char(start, end);
        segs.push(String::from_str(piece));
        assert(segs.deep_view() =~= old(segs).deep_view().push(seg));
    }
}

/// Splits a path into its ordered normal segments.
pub fn split_segments(p: &str) -> (segs: Vec<String>)
    ensures
        segs.deep_view() == segments_of(p@),
{
    let p_len = p.unicode_len();
    let mut segs: Vec<String> = Vec::new();
    let mut start: usize = 0;
    let mut i: usize = 0;
    assert(segs.deep_view() =~= Seq::<Seq<char>>::empty());
    assert(p@.subrange(0, 0) =~= Seq::<char>::empty());
    while i < p_len
        invariant
            start <= i <= p_len,
            p_len == p@.len(),
            segments_of(p@) == segments_scan(
                p@,
                i as int,
                p@.subrange(start as int, i as int),
                segs.deep_view(),
            ),
        decreases p_len - i,
    {
        let ghost cur = p@.subrange(start as int, i as int);
        let c = p.get_char(i);
        if c == '/' {
            push_if_normal(&mut segs, p, start, i);
            start = i + 1;
            assert(p@.subrange(start as int, i as int + 1) =~= Seq::<char>::empty());
        } else {
            assert(p@.subrange(start as int, i as int + 1) =~= cur.push(p@[i as int]));
        }
        i += 1;
    }
    push_if_normal(&mut segs, p, start, p_len);
    segs
}

/// Appends `/` and each segment from `start` on to `dest`.
fn join_onto(dest: &mut String, segs: &Vec<String>, start: usize)
    requires
        start <= segs@.len(),
    ensures
        final(dest)@ == joined_from(old(dest)@, segs.deep_view(), start as int),
{
    let mut i = start;
    while i < segs.len()
        invariant
            start <= i <= segs@.len(),
            joined_from(old(dest)@, segs.deep_view(), start as int) == joined_from(
                dest@,
                segs.deep_view(),
                i as int,
            ),
        decreases segs@.len() - i,
    {
        let ghost prev = dest@;
        dest.append("/");
        dest.append(segs[i].as_str());
        proof {
            reveal_strlit("/");
            assert(("/")@ =~= seq!['/']);
            assert(segs.deep_view()[i as int] == segs@[i as int]@);
            assert(dest@ =~= prev + seq!['/'] + segs.deep_view()[i as int]);
        }
        i += 1;
    }
}

/// Swaps a trailing `.md` for `.html`; any other string is returned as it is.
fn swap_md_suffix(s: String) -> (r: String)
    ensures
        r@ == swap_md(s@),
{
    let n = s.as_str().unicode_len();
    if n >= 3 && s.as_str().get_char(n - 3) == '.' && s.as_str().get_char(n - 2) == 'm'
        && s.as_str().get_char(n - 1) == 'd' {
        let stem = s.as_str().substring_char(0, n - 3);
        let mut r = String::from_str(stem);
        r.append(".html");
        proof {
            reveal_strlit(".html");
            assert(".html"@ =~= html_suffix());
        }
        r
    } else {
        s
    }
}

/// Computes the destination path of `source` under `output_root`, optionally
/// dropping the first normal segment, and swapping a trailing `.md` for
/// `.html`.
pub fn map_destination(source: &str, output_root: &str, skip_first_segment: bool) -> (r: String)
    ensures
        r@ == dest_of(source@, output_root@, skip_first_segment),
{
    let segs = split_segments(source);
    let start: usize = if skip_first_segment && segs.len() > 0 {
        1
    } else {
        0
    };
    let mut dest = String::from_str(output_root);
    join_onto(&mut dest, &segs, start);
    proof {
        lemma_joined_from_is_joined_of_tail(output_root@, segs.deep_view(), start as int);
        if start == 1 {
            assert(segs.deep_view().subrange(1, segs.deep_view().len() as int)
                =~= segs.deep_view().drop_first());
        } else {
            assert(segs.deep_view().subrange(0, segs.deep_view().len() as int)
                =~= segs.deep_view());
        }
    }
    swap_md_suffix(dest)
}

/// Joining from position `i` is joining the tail of the segments from its
/// start.
proof fn lemma_joined_from_is_joined_of_tail(root: Seq<char>, segs: Seq<Seq<char>>, i: int)
    requires
        0 <= i <= segs.len(),
    ensures
        joined_from(root, segs, i) == joined(root, segs.subrange(i, segs.len() as int)),
    decreases segs.len() - i,
{
    let tail = segs.subrange(i, segs.len() as int);
    if i >= segs.len() {
        assert(tail =~= Seq::<Seq<char>>::empty());
    } else {
        let root2 = root + seq!['/'] + segs[i];
        assert(tail[0] == segs[i]);
        lemma_joined_from_is_joined_of_tail(root2, tail, 1);
        lemma_joined_from_is_joined_of_tail(root2, segs, i + 1);
        assert(tail.subrange(1, tail.len() as int) =~= segs.subrange(i + 1, segs.len() as int));
    }
}

} // verus!
