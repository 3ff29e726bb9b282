//! Paths gathered from a multi-file selection: Explorer starts one process
//! per selected file; they append their paths to a shared list, and the
//! first one reads the list back.  This module turns the lines of that
//! list into the paths to work on, and joins paths for the clipboard.

use vstd::prelude::*;
use crate::order::{char_rows, insert_sorted_unique, strictly_sorted};
use crate::text::{chars_of, extend_chars, string_of, string_views, trim, trim_chars};

verus! {

/// `p` is one of the paths listed in `lines`: some line, trimmed of white
/// space, is `p`, and `p` is not empty.
pub open spec fn listed(lines: Seq<Seq<char>>, p: Seq<char>) -> bool {
    p.len() > 0 && exists|i: int| 0 <= i < lines.len() && trim(#[trigger] lines[i]) == p
}

/// The paths listed in `lines` (each line trimmed, empty lines dropped),
/// without repeats, in sorted order.
pub fn paths_from_lines(lines: &Vec<String>) -> (paths: Vec<String>)
    ensures
        strictly_sorted(string_views(paths@)),
        forall|p: Seq<char>|
            string_views(paths@).contains(p) <==> listed(string_views(lines@), p),
{
    let ghost all = string_views(lines@);
    let mut rows: Vec<Vec<char>> = Vec::new();
    let mut i: usize = 0;
    while i < lines.len()
        invariant
            i <= lines.len(),
            all == string_views(lines@),
            strictly_sorted(char_rows(rows@)),
            forall|p: Seq<char>| char_rows(rows@).contains(p) <==> listed(all.take(i as int), p),
        decreases lines.len() - i,
    {
        let t = trim_chars(&chars_of(lines[i].as_str()));
        let ghost before = char_rows(rows@);
        let ghost tv = t@;
        assert(all[i as int] == lines@[i as int]@);
        if t.len() > 0 {
            insert_sorted_unique(&mut rows, t);
        }
        assert forall|p: Seq<char>| char_rows(rows@).contains(p) <==> listed(all.take(i + 1), p) by {
            let pre = all.take(i as int);
            let post = all.take(i + 1);
            if listed(post, p) {
                let k = choose|k: int| 0 <= k < post.len() && trim(#[trigger] post[k]) == p;
                if k < i {
                    assert(pre[k] == post[k]);
                }
            }
            if listed(pre, p) {
                let k = choose|k: int| 0 <= k < pre.len() && trim(#[trigger] pre[k]) == p;
                assert(post[k] == pre[k]);
            }
            if tv.len() > 0 && p == tv {
                assert(post[i as int] == all[i as int]);
            }
        }
        i += 1;
    }
    assert(all.take(lines.len() as int) == all);
    let mut paths: Vec<String> = Vec::new();
    let mut k: usize = 0;
    while k < rows.len()
        invariant
            k <= rows.len(),
            paths.len() == k,
            string_views(paths@) == char_rows(rows@).take(k as int),
        decreases rows.len() - k,
    {
        let s = string_of(&rows[k]);
        assert(s@ == char_rows(rows@)[k as int]);
        let ghost prev = paths@;
        paths.push(s);
        assert(paths@ == prev.push(s));
        assert(string_views(paths@).len() == k + 1);
        assert forall|j: int| 0 <= j < k + 1 implies string_views(paths@)[j] == char_rows(rows@).take(k + 1)[j] by {
            assert(string_views(paths@)[j] == paths@[j]@);
            assert(char_rows(rows@).take(k + 1)[j] == rows@[j]@);
            if j < k {
                assert(string_views(prev)[j] == char_rows(rows@).take(k as int)[j]);
                assert(string_views(prev)[j] == prev[j]@);
            }
        }
        assert(string_views(paths@) =~= char_rows(rows@).take(k + 1));
        k += 1;
    }
    assert(char_rows(rows@).take(rows.len() as int) == char_rows(rows@));
    paths
}

/// The sequence of the paths, each followed by a CRLF line break except the
/// last (`[String]::join("\r\n")`).
pub open spec fn joined_lines(paths: Seq<Seq<char>>) -> Seq<char>
    decreases paths.len(),
{
    if paths.len() == 0 {
        Seq::empty()
    } else if paths.len() == 1 {
        paths[0]
    } else {
        joined_lines(paths.drop_last()) + seq!['\r', '\n'] + paths.last()
    }
}

/// The text put on the clipboard: the paths separated by CRLF line breaks.
pub fn join_lines(paths: &Vec<String>) -> (text: String)
    ensures
        text@ == joined_lines(string_views(paths@)),
{
    let ghost views = string_views(paths@);
    let mut out: Vec<char> = Vec::new();
    let mut i: usize = 0;
    while i < paths.len()
        invariant
            i <= paths.len(),
            views == string_views(paths@),
            out@ == joined_lines(views.take(i as int)),
        decreases paths.len() - i,
    {
        let ghost taken = views.take(i + 1);
        assert(taken.drop_last() =~= views.take(i as int));
        assert(taken.last() == paths@[i as int]@);
        if i > 0 {
            out.push('\r');
            out.push('\n');
        } else {
            assert(out@ =~= Seq::<char>::empty());
        }
        extend_chars(&mut out, &chars_of(paths[i].as_str()));
        i += 1;
    }
    assert(views.take(paths.len() as int) == views);
    string_of(&out)
}

} // verus!
