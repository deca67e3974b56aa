use vstd::prelude::*;

verus! {

/// The view of a list of owned strings as a sequence of character sequences.
pub open spec fn strings_view(v: Seq<String>) -> Seq<Seq<char>> {
    v.map_values(|s: String| s@)
}

/// Adds the piece that is being read to the finished pieces, unless it is empty.
pub open spec fn close_piece(done: Seq<Seq<char>>, cur: Seq<char>) -> Seq<Seq<char>> {
    if cur.len() > 0 {
        done.push(cur)
    } else {
        done
    }
}

/// Reading `s` from the left: the non-empty pieces finished so far, and the
/// piece after the last `/`.
pub open spec fn split_state(s: Seq<char>) -> (Seq<Seq<char>>, Seq<char>)
    decreases s.len(),
{
    if s.len() == 0 {
        (Seq::empty(), Seq::empty())
    } else {
        let (done, cur) = split_state(s.drop_last());
        if s.last() == '/' {
            (close_piece(done, cur), Seq::empty())
        } else {
            (done, cur.push(s.last()))
        }
    }
}

/// The segments of a path: the pieces between slashes, empty pieces left out.
/// Leading, trailing and repeated slashes are therefore ignored, and `/` has
/// no segment at all.
pub open spec fn path_segments(s: Seq<char>) -> Seq<Seq<char>> {
    close_piece(split_state(s).0, split_state(s).1)
}

/// Splits a path into its segments.
pub fn split_path(path: &str) -> (r: Vec<String>)
    ensures
        strings_view(r@) == path_segments(path@),
{
    let n = path.unicode_len();
    let mut segs: Vec<String> = Vec::new();
    let mut start: usize = 0;
    let mut i: usize = 0;
    while i < n
        invariant
            start <= i <= n,
            n == path@.len(),
            split_state(path@.take(i as int)) == (strings_view(segs@), path@.subrange(
                start as int,
                i as int,
            )),
        decreases n - i,
    {
        let c = path.get_char(i);
        let ghost before = segs@;
        assert(path@.take(i + 1).drop_last() =~= path@.take(i as int));
        if c == '/' {
            if start < i {
                let piece = path.substring_char(start, i);
                segs.push(piece.to_owned());
                assert(strings_view(segs@) =~= strings_view(before).push(piece@));
            }
            start = i + 1;
        } else {
            assert(path@.subrange(start as int, i as int).push(c) =~= path@.subrange(
                start as int,
                i + 1,
            ));
        }
        i = i + 1;
    }
    assert(path@.take(n as int) =~= path@);
    if start < n {
        let piece = path.substring_char(start, n);
        let ghost before = segs@;
        segs.push(piece.to_owned());
        assert(strings_view(segs@) =~= strings_view(before).push(piece@));
    }
    segs
}

} // verus!
