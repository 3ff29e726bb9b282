//! Windows paths as the tool reads them, the way `std::path` reads them
//! on Windows.  A path may start with a prefix: a drive (`C:`), a share
//! (`\\server\share`), a device (`\\.\COM1`) or a verbatim prefix
//! (`\\?\...`, `\\?\UNC\server\share`).  Every prefix but a drive
//! implies a root; a separator after the prefix is the root itself.  The
//! components follow, separated by `\` or `/` (only `\` in a verbatim
//! path); empty components and `.` components are not components, except
//! that a verbatim path keeps `.` and that a relative path without prefix
//! may start with `.`.  The final component is the file name when it is
//! neither `.` nor `..`; its stem and extension split at the last dot; the
//! parent is what precedes the final component.

use vstd::prelude::*;
use crate::text::{chars_of, code_point, extend_chars, string_of, sub_chars};

verus! {

/// `\` or `/`.
pub open spec fn is_separator(c: char) -> bool {
    c == '\\' || c == '/'
}

/// A separator of a path: only `\` in a verbatim path.
pub open spec fn sep_in(verbatim: bool, c: char) -> bool {
    if verbatim {
        c == '\\'
    } else {
        is_separator(c)
    }
}

/// An ASCII letter.
pub open spec fn is_ascii_letter(c: char) -> bool {
    (65 <= c as int <= 90) || (97 <= c as int <= 122)
}

/// The first separator at or after `k`, or the length of `s`.
pub open spec fn next_sep(s: Seq<char>, k: int, verbatim: bool) -> int
    decreases s.len() - k,
{
    if k < 0 || k >= s.len() {
        s.len() as int
    } else if sep_in(verbatim, s[k]) {
        k
    } else {
        next_sep(s, k + 1, verbatim)
    }
}

/// Where a server and share that start at `k` end: after the share when
/// one follows the server, else after the server.
pub open spec fn share_end(s: Seq<char>, k: int, verbatim: bool) -> int {
    let a = next_sep(s, k, verbatim);
    if a < s.len() && next_sep(s, a + 1, verbatim) > a + 1 {
        next_sep(s, a + 1, verbatim)
    } else {
        a
    }
}

/// The path starts with two separators.
pub open spec fn two_seps(s: Seq<char>) -> bool {
    s.len() >= 2 && is_separator(s[0]) && is_separator(s[1])
}

/// The path starts with `\\?\` (a verbatim path).
pub open spec fn is_verbatim(s: Seq<char>) -> bool {
    s.len() >= 4 && s[0] == '\\' && s[1] == '\\' && s[2] == '?' && s[3] == '\\'
}

/// A verbatim path to a share: `\\?\UNC\`.
pub open spec fn is_verbatim_unc(s: Seq<char>) -> bool {
    is_verbatim(s) && s.len() >= 8 && s[4] == 'U' && s[5] == 'N' && s[6] == 'C' && is_separator(
        s[7],
    )
}

/// A device path: two separators, `.` and a separator.
pub open spec fn is_device(s: Seq<char>) -> bool {
    two_seps(s) && !is_verbatim(s) && s.len() >= 4 && s[2] == '.' && is_separator(s[3])
}

/// The path starts with a drive letter and `:`.
pub open spec fn is_drive_at(s: Seq<char>) -> bool {
    s.len() >= 2 && s[1] == ':' && is_ascii_letter(s[0])
}

/// The prefix is a drive.
pub open spec fn is_disk(s: Seq<char>) -> bool {
    !two_seps(s) && is_drive_at(s)
}

/// Length of the prefix, 0 when there is none.  Two separators start a
/// verbatim, device or share prefix; a share needs a server and a share
/// name, else there is no prefix.
pub open spec fn prefix_len(s: Seq<char>) -> int {
    if two_seps(s) {
        if is_verbatim(s) {
            if is_verbatim_unc(s) {
                share_end(s, 8, true)
            } else {
                next_sep(s, 4, true)
            }
        } else if is_device(s) {
            next_sep(s, 4, false)
        } else if next_sep(s, 2, false) > 2 && share_end(s, 2, false) > next_sep(s, 2, false) {
            share_end(s, 2, false)
        } else {
            0
        }
    } else if is_drive_at(s) {
        2
    } else {
        0
    }
}

/// A separator follows the prefix (or starts the path).
pub open spec fn phys_root(s: Seq<char>) -> bool {
    s.len() > prefix_len(s) && is_separator(s[prefix_len(s)])
}

/// The path has a root: a separator after the prefix, or a prefix other
/// than a drive.
pub open spec fn has_root(s: Seq<char>) -> bool {
    phys_root(s) || (prefix_len(s) > 0 && !is_disk(s))
}

/// A path without root starts with a `.` component.
pub open spec fn cur_dir(s: Seq<char>) -> bool {
    let p = prefix_len(s);
    !has_root(s) && s.len() > p && s[p] == '.' && (s.len() == p + 1 || is_separator(s[p + 1]))
}

/// Where the components begin: after the prefix, the root and a leading
/// `.` component.
pub open spec fn body_start(s: Seq<char>) -> int {
    prefix_len(s) + (if phys_root(s) { 1int } else { 0int }) + (if cur_dir(s) { 1int } else { 0int })
}

/// The end of `s[lo..e]` once trailing separators and `.` components are
/// dropped (a verbatim path keeps its `.` components).
pub open spec fn content_end(s: Seq<char>, lo: int, e: int, verbatim: bool) -> int
    decreases e - lo,
{
    if e <= lo {
        lo
    } else if sep_in(verbatim, s[e - 1]) {
        content_end(s, lo, e - 1, verbatim)
    } else if !verbatim && s[e - 1] == '.' && (e - 1 == lo || is_separator(s[e - 2])) {
        content_end(s, lo, e - 1, verbatim)
    } else {
        e
    }
}

/// The start of the component that ends at `e`: just after the nearest
/// separator before `e`, or `lo`.
pub open spec fn component_start(s: Seq<char>, lo: int, e: int, verbatim: bool) -> int
    decreases e - lo,
{
    if e <= lo {
        lo
    } else if sep_in(verbatim, s[e - 1]) {
        e
    } else {
        component_start(s, lo, e - 1, verbatim)
    }
}

/// End of the last component of `s` (equal to `body_start(s)` when there is
/// none).
pub open spec fn last_end(s: Seq<char>) -> int {
    content_end(s, body_start(s), s.len() as int, is_verbatim(s))
}

/// Start of the last component of `s`.
pub open spec fn last_start(s: Seq<char>) -> int {
    component_start(s, body_start(s), last_end(s), is_verbatim(s))
}

/// The file name of `s`: its last component, unless there is none or it is
/// `.` or `..` (what `Path::file_name` gives on Windows).
pub open spec fn spec_file_name(s: Seq<char>) -> Option<Seq<char>> {
    if last_end(s) == body_start(s) {
        None
    } else {
        let name = s.subrange(last_start(s), last_end(s));
        if name == seq!['.'] || name == seq!['.', '.'] {
            None
        } else {
            Some(name)
        }
    }
}

/// The parent of `s`: `s` up to its last component, without the
/// separators and `.` components before it; the empty path when the only
/// component is a leading `.`; none when `s` has no component (what
/// `Path::parent` gives on Windows).
pub open spec fn spec_parent(s: Seq<char>) -> Option<Seq<char>> {
    if last_end(s) > body_start(s) {
        Some(s.take(content_end(s, body_start(s), last_start(s), is_verbatim(s))))
    } else if prefix_len(s) == 0 && cur_dir(s) {
        Some(Seq::empty())
    } else {
        None
    }
}

/// Index of the last `.` in `name`, or -1.
pub open spec fn last_dot(name: Seq<char>) -> int
    decreases name.len(),
{
    if name.len() == 0 {
        -1
    } else if name.last() == '.' {
        name.len() - 1
    } else {
        last_dot(name.drop_last())
    }
}

/// The stem of a file name: the part before the last dot, or the whole
/// name when it has no dot or only a leading one.
pub open spec fn stem_of(name: Seq<char>) -> Seq<char> {
    if last_dot(name) <= 0 {
        name
    } else {
        name.take(last_dot(name))
    }
}

/// The extension of a file name: the part after the last dot; none when
/// there is no dot or only a leading one.
pub open spec fn extension_of(name: Seq<char>) -> Option<Seq<char>> {
    if last_dot(name) <= 0 {
        None
    } else {
        Some(name.skip(last_dot(name) + 1))
    }
}

/// Whether appending a relative name to `base` needs a separator between:
/// `base` is not empty, does not end in a separator and is not a bare drive.
pub open spec fn needs_separator(base: Seq<char>) -> bool {
    base.len() > 0 && !is_separator(base.last()) && !(is_disk(base) && prefix_len(base)
        == base.len())
}

/// The components of `s[k..]`: the runs between separators, without
/// empty runs and, unless the path is verbatim, without `.`.
pub open spec fn comps_from(s: Seq<char>, k: int, verbatim: bool) -> Seq<Seq<char>>
    decreases s.len() - k,
{
    if k < 0 || k >= s.len() {
        seq![]
    } else {
        let e = next_sep(s, k, verbatim);
        let rest = if k <= e < s.len() {
            comps_from(s, e + 1, verbatim)
        } else {
            seq![]
        };
        let c = s.subrange(k, e);
        if c.len() == 0 || (!verbatim && c == seq!['.']) {
            rest
        } else {
            seq![c] + rest
        }
    }
}

/// Whether a component can be taken back by a following `..`: it is a
/// name, neither `.` nor `..`.
pub open spec fn is_normal(c: Seq<char>) -> bool {
    c != seq!['.'] && c != seq!['.', '.']
}

/// `buf` with the components `cs` added one by one: `..` takes back the
/// last name, if the last component is one, and is dropped otherwise.
pub open spec fn push_comps(buf: Seq<Seq<char>>, cs: Seq<Seq<char>>) -> Seq<Seq<char>>
    decreases cs.len(),
{
    if cs.len() == 0 {
        buf
    } else {
        let next = if cs[0] == seq!['.', '.'] {
            if buf.len() > 0 && is_normal(buf.last()) {
                buf.drop_last()
            } else {
                buf
            }
        } else {
            buf.push(cs[0])
        };
        push_comps(next, cs.skip(1))
    }
}

/// Components written one after the other with `\` between them.
pub open spec fn join_comps(cs: Seq<Seq<char>>) -> Seq<char>
    decreases cs.len(),
{
    if cs.len() == 0 {
        seq![]
    } else if cs.len() == 1 {
        cs[0]
    } else {
        join_comps(cs.drop_last()) + seq!['\\'] + cs.last()
    }
}

/// A verbatim `base` joined with a non-empty `name` without prefix: the
/// components of both, where `.` in the name is dropped, `..` takes back
/// a name, and a name with a root starts again from the prefix; written
/// as the prefix, a `\` when there is a root or a component, and the
/// components separated by `\`.
#[verifier::opaque]
pub open spec fn verbatim_join(base: Seq<char>, name: Seq<char>) -> Seq<char> {
    let start = if phys_root(name) {
        Seq::<Seq<char>>::empty()
    } else {
        comps_from(base, body_start(base), true)
    };
    let cs = push_comps(start, comps_from(name, body_start(name), false));
    let head = base.take(prefix_len(base));
    if phys_root(base) || phys_root(name) || cs.len() > 0 {
        head + seq!['\\'] + join_comps(cs)
    } else {
        head
    }
}

/// `base` joined with `name` (what `Path::join` gives on Windows): a name
/// with a prefix replaces `base`; a verbatim `base` is rebuilt from its
/// components and those of a non-empty name; a name starting with a
/// separator keeps only the prefix of `base`; otherwise the name is
/// appended, with a `\` between when needed.
pub open spec fn spec_join(base: Seq<char>, name: Seq<char>) -> Seq<char> {
    if prefix_len(name) > 0 {
        name
    } else if is_verbatim(base) && name.len() > 0 {
        verbatim_join(base, name)
    } else if name.len() > 0 && is_separator(name[0]) {
        base.take(prefix_len(base)) + name
    } else if needs_separator(base) {
        base + seq!['\\'] + name
    } else {
        base + name
    }
}

fn is_sep(c: char) -> (r: bool)
    ensures
        r == is_separator(c),
{
    c == '\\' || c == '/'
}

fn is_sep_in(verbatim: bool, c: char) -> (r: bool)
    ensures
        r == sep_in(verbatim, c),
{
    if verbatim {
        c == '\\'
    } else {
        is_sep(c)
    }
}

fn next_sep_of(s: &Vec<char>, k: usize, verbatim: bool) -> (r: usize)
    requires
        k <= s.len(),
    ensures
        r as int == next_sep(s@, k as int, verbatim),
        k <= r <= s.len(),
{
    let mut i: usize = k;
    while i < s.len()
        invariant
            k <= i <= s.len(),
            next_sep(s@, k as int, verbatim) == next_sep(s@, i as int, verbatim),
        decreases s.len() - i,
    {
        if is_sep_in(verbatim, s[i]) {
            return i;
        }
        i += 1;
    }
    i
}

fn share_end_of(s: &Vec<char>, k: usize, verbatim: bool) -> (r: usize)
    requires
        k <= s.len(),
    ensures
        r as int == share_end(s@, k as int, verbatim),
        k <= r <= s.len(),
{
    let a = next_sep_of(s, k, verbatim);
    if a < s.len() {
        let b = next_sep_of(s, a + 1, verbatim);
        if b > a + 1 {
            return b;
        }
    }
    a
}

fn two_seps_of(s: &Vec<char>) -> (r: bool)
    ensures
        r == two_seps(s@),
{
    s.len() >= 2 && is_sep(s[0]) && is_sep(s[1])
}

fn is_verbatim_of(s: &Vec<char>) -> (r: bool)
    ensures
        r == is_verbatim(s@),
{
    s.len() >= 4 && s[0] == '\\' && s[1] == '\\' && s[2] == '?' && s[3] == '\\'
}

fn is_drive_at_of(s: &Vec<char>) -> (r: bool)
    ensures
        r == is_drive_at(s@),
{
    if s.len() >= 2 && s[1] == ':' {
        let c = code_point(s[0]);
        (65 <= c && c <= 90) || (97 <= c && c <= 122)
    } else {
        false
    }
}

fn prefix_len_of(s: &Vec<char>) -> (n: usize)
    ensures
        n as int == prefix_len(s@),
        n <= s.len(),
{
    if two_seps_of(s) {
        if is_verbatim_of(s) {
            if s.len() >= 8 && s[4] == 'U' && s[5] == 'N' && s[6] == 'C' && is_sep(s[7]) {
                share_end_of(s, 8, true)
            } else {
                next_sep_of(s, 4, true)
            }
        } else if s.len() >= 4 && s[2] == '.' && is_sep(s[3]) {
            next_sep_of(s, 4, false)
        } else {
            let a = next_sep_of(s, 2, false);
            let e = share_end_of(s, 2, false);
            if a > 2 && e > a {
                e
            } else {
                0
            }
        }
    } else if is_drive_at_of(s) {
        2
    } else {
        0
    }
}

/// The prefix length, whether the prefix is a drive, whether the path is
/// verbatim, and where its components begin.
fn layout_of(s: &Vec<char>) -> (r: (usize, bool, bool, usize))
    ensures
        r.0 as int == prefix_len(s@),
        r.1 == is_disk(s@),
        r.2 == is_verbatim(s@),
        r.3 as int == body_start(s@),
        r.3 <= s.len(),
{
    let p = prefix_len_of(s);
    let disk = !two_seps_of(s) && is_drive_at_of(s);
    let phys = s.len() > p && is_sep(s[p]);
    let root = phys || (p > 0 && !disk);
    let cur = !root && s.len() > p && s[p] == '.' && (s.len() == p + 1 || is_sep(s[p + 1]));
    let b = p + (if phys { 1 } else { 0 }) + (if cur { 1 } else { 0 });
    (p, disk, is_verbatim_of(s), b)
}

fn content_end_of(s: &Vec<char>, lo: usize, e: usize, verbatim: bool) -> (r: usize)
    requires
        lo <= e <= s.len(),
    ensures
        r as int == content_end(s@, lo as int, e as int, verbatim),
        lo <= r <= e,
{
    let mut k: usize = e;
    while k > lo
        invariant
            lo <= k <= e <= s.len(),
            content_end(s@, lo as int, e as int, verbatim) == content_end(
                s@,
                lo as int,
                k as int,
                verbatim,
            ),
        decreases k,
    {
        if is_sep_in(verbatim, s[k - 1]) {
            k -= 1;
        } else if !verbatim && s[k - 1] == '.' && (k - 1 == lo || is_sep(s[k - 2])) {
            k -= 1;
        } else {
            return k;
        }
    }
    k
}

fn component_start_of(s: &Vec<char>, lo: usize, e: usize, verbatim: bool) -> (r: usize)
    requires
        lo <= e <= s.len(),
    ensures
        r as int == component_start(s@, lo as int, e as int, verbatim),
        lo <= r <= e,
{
    let mut k: usize = e;
    while k > lo
        invariant
            lo <= k <= e <= s.len(),
            component_start(s@, lo as int, e as int, verbatim) == component_start(
                s@,
                lo as int,
                k as int,
                verbatim,
            ),
        decreases k,
    {
        if is_sep_in(verbatim, s[k - 1]) {
            return k;
        }
        k -= 1;
    }
    k
}

/// The file name of the path `s`, as `Path::file_name` gives it on Windows.
pub fn file_name_chars(s: &Vec<char>) -> (r: Option<Vec<char>>)
    ensures
        match r {
            Some(v) => spec_file_name(s@) == Some(v@),
            None => spec_file_name(s@) is None,
        },
{
    let (_p, _disk, vb, lo) = layout_of(s);
    let e = content_end_of(s, lo, s.len(), vb);
    if e == lo {
        return None;
    }
    let b = component_start_of(s, lo, e, vb);
    let name = sub_chars(s, b, e);
    if (name.len() == 1 && name[0] == '.') || (name.len() == 2 && name[0] == '.' && name[1]
        == '.') {
        assert(name@ =~= seq!['.'] || name@ =~= seq!['.', '.']);
        None
    } else {
        assert(name@ != seq!['.'] && name@ != seq!['.', '.']) by {
            if name@ == seq!['.'] {
                assert(name@.len() == 1);
            }
            if name@ == seq!['.', '.'] {
                assert(name@.len() == 2);
            }
        }
        Some(name)
    }
}

/// The parent of the path `s`, as `Path::parent` gives it on Windows.
pub fn parent_chars(s: &Vec<char>) -> (r: Option<Vec<char>>)
    ensures
        match r {
            Some(v) => spec_parent(s@) == Some(v@),
            None => spec_parent(s@) is None,
        },
{
    let (p, _disk, vb, lo) = layout_of(s);
    let e = content_end_of(s, lo, s.len(), vb);
    if e == lo {
        if p == 0 && lo > 0 && s[lo - 1] == '.' {
            assert(cur_dir(s@));
            return Some(Vec::new());
        }
        return None;
    }
    let b = component_start_of(s, lo, e, vb);
    let q = content_end_of(s, lo, b, vb);
    let r = sub_chars(s, 0, q);
    assert(r@ == s@.take(q as int));
    Some(r)
}

fn last_dot_of(name: &Vec<char>) -> (r: Option<usize>)
    ensures
        match r {
            Some(d) => last_dot(name@) == d && d < name.len(),
            None => last_dot(name@) == -1,
        },
{
    let mut k: usize = name.len();
    assert(name@.take(k as int) == name@);
    while k > 0
        invariant
            k <= name.len(),
            last_dot(name@) == last_dot(name@.take(k as int)),
        decreases k,
    {
        assert(name@.take(k as int).last() == name@[k - 1]);
        if name[k - 1] == '.' {
            return Some(k - 1);
        }
        assert(name@.take(k as int).drop_last() == name@.take(k - 1));
        k -= 1;
    }
    None
}

/// The stem of the file name `name`.
pub fn stem_chars(name: &Vec<char>) -> (r: Vec<char>)
    ensures
        r@ == stem_of(name@),
{
    match last_dot_of(name) {
        Some(d) if d > 0 => sub_chars(name, 0, d),
        _ => name.clone(),
    }
}

/// The extension of the file name `name`.
pub fn extension_chars(name: &Vec<char>) -> (r: Option<Vec<char>>)
    ensures
        match r {
            Some(v) => extension_of(name@) == Some(v@),
            None => extension_of(name@) is None,
        },
{
    match last_dot_of(name) {
        Some(d) if d > 0 => {
            let r = sub_chars(name, d + 1, name.len());
            assert(r@ == name@.skip(d + 1));
            Some(r)
        },
        _ => None,
    }
}

/// The character sequences of a list of components.
pub open spec fn comp_views(v: Seq<Vec<char>>) -> Seq<Seq<char>> {
    v.map_values(|c: Vec<char>| c@)
}

fn comps_of(s: &Vec<char>, k: usize, verbatim: bool) -> (r: Vec<Vec<char>>)
    requires
        k <= s.len(),
    ensures
        comp_views(r@) == comps_from(s@, k as int, verbatim),
{
    let mut out: Vec<Vec<char>> = Vec::new();
    let mut i: usize = k;
    assert(comp_views(out@) =~= Seq::<Seq<char>>::empty());
    while i < s.len()
        invariant
            k <= i <= s.len(),
            comp_views(out@) + comps_from(s@, i as int, verbatim) == comps_from(s@, k as int, verbatim),
        decreases s.len() - i,
    {
        let e = next_sep_of(s, i, verbatim);
        let c = sub_chars(s, i, e);
        let ghost before = comp_views(out@);
        let keep = !(c.len() == 0 || (!verbatim && c.len() == 1 && c[0] == '.'));
        proof {
            if !verbatim && c@ == seq!['.'] {
                assert(c@.len() == 1);
            }
            if !verbatim && c.len() == 1 && c[0] == '.' {
                assert(c@ =~= seq!['.']);
            }
        }
        if keep {
            out.push(c);
            assert(comp_views(out@) =~= before.push(c@));
        }
        if e < s.len() {
            i = e + 1;
        } else {
            i = s.len();
            assert(comps_from(s@, i as int, verbatim) == Seq::<Seq<char>>::empty());
        }
    }
    assert(comps_from(s@, i as int, verbatim) == Seq::<Seq<char>>::empty());
    assert(comp_views(out@) + Seq::<Seq<char>>::empty() =~= comp_views(out@));
    out
}

fn is_dot_dot(c: &Vec<char>) -> (r: bool)
    ensures
        r == (c@ == seq!['.', '.']),
{
    let r = c.len() == 2 && c[0] == '.' && c[1] == '.';
    proof {
        if r {
            assert(c@ =~= seq!['.', '.']);
        }
        if c@ == seq!['.', '.'] {
            assert(c@.len() == 2);
        }
    }
    r
}

fn is_normal_comp(c: &Vec<char>) -> (r: bool)
    ensures
        r == is_normal(c@),
{
    let dot = c.len() == 1 && c[0] == '.';
    proof {
        if dot {
            assert(c@ =~= seq!['.']);
        }
        if c@ == seq!['.'] {
            assert(c@.len() == 1);
        }
    }
    !dot && !is_dot_dot(c)
}

fn verbatim_join_chars(base: &Vec<char>, name: &Vec<char>) -> (r: Vec<char>)
    ensures
        r@ == verbatim_join(base@, name@),
{
    reveal(verbatim_join);
    let (bp, _bdisk, _bvb, blo) = layout_of(base);
    let (np, _ndisk, _nvb, nlo) = layout_of(name);
    let base_root = base.len() > bp && is_sep(base[bp]);
    let name_root = name.len() > np && is_sep(name[np]);
    let mut buf: Vec<Vec<char>> = if name_root { Vec::new() } else { comps_of(base, blo, true) };
    let ghost start = comp_views(buf@);
    assert(start == if phys_root(name@) {
        Seq::<Seq<char>>::empty()
    } else {
        comps_from(base@, body_start(base@), true)
    });
    let ncs = comps_of(name, nlo, false);
    let mut i: usize = 0;
    assert(comp_views(ncs@).skip(0) =~= comp_views(ncs@));
    while i < ncs.len()
        invariant
            i <= ncs.len(),
            push_comps(comp_views(buf@), comp_views(ncs@).skip(i as int)) == push_comps(
                start,
                comp_views(ncs@),
            ),
        decreases ncs.len() - i,
    {
        let ghost before = comp_views(buf@);
        let ghost rest = comp_views(ncs@).skip(i as int);
        assert(rest[0] == ncs@[i as int]@);
        assert(rest.skip(1) =~= comp_views(ncs@).skip(i + 1));
        if is_dot_dot(&ncs[i]) {
            if buf.len() > 0 && is_normal_comp(&buf[buf.len() - 1]) {
                assert(before.last() == buf@[buf.len() - 1]@);
                buf.pop();
                assert(comp_views(buf@) =~= before.drop_last());
            }
        } else {
            buf.push(ncs[i].clone());
            assert(comp_views(buf@) =~= before.push(ncs@[i as int]@));
        }
        i += 1;
    }
    assert(comp_views(ncs@).skip(i as int) =~= Seq::<Seq<char>>::empty());
    let ghost cs = comp_views(buf@);
    assert(cs == push_comps(start, comps_from(name@, body_start(name@), false)));
    let mut r = sub_chars(base, 0, bp);
    if base_root || name_root || buf.len() > 0 {
        r.push('\\');
        let ghost head = r@;
        let mut j: usize = 0;
        assert(cs.take(0) =~= Seq::<Seq<char>>::empty());
        while j < buf.len()
            invariant
                j <= buf.len(),
                cs == comp_views(buf@),
                r@ == head + join_comps(cs.take(j as int)),
            decreases buf.len() - j,
        {
            if j > 0 {
                r.push('\\');
            }
            let ghost prev = r@;
            extend_chars(&mut r, &buf[j]);
            proof {
                let t = cs.take(j + 1);
                assert(t.drop_last() =~= cs.take(j as int));
                assert(t.last() == buf@[j as int]@);
                if j == 0 {
                    assert(t.len() == 1);
                    assert(join_comps(cs.take(0)) =~= Seq::<char>::empty());
                }
            }
            assert(r@ =~= head + join_comps(cs.take(j + 1)));
            j += 1;
        }
        assert(cs.take(j as int) =~= cs);
    }
    r
}

/// `base` joined with `name`, as `Path::join` gives it on Windows.
pub fn join_chars(base: &Vec<char>, name: &Vec<char>) -> (r: Vec<char>)
    ensures
        r@ == spec_join(base@, name@),
{
    if prefix_len_of(name) > 0 {
        return name.clone();
    }
    let (bp, bdisk, bvb, _lo) = layout_of(base);
    if bvb && name.len() > 0 {
        return verbatim_join_chars(base, name);
    }
    if name.len() > 0 && is_sep(name[0]) {
        let mut r = sub_chars(base, 0, bp);
        extend_chars(&mut r, name);
        return r;
    }
    let mut r = base.clone();
    if base.len() > 0 && !is_sep(base[base.len() - 1]) && !(bdisk && bp == base.len()) {
        r.push('\\');
    }
    extend_chars(&mut r, name);
    r
}


/// The characters of an optional string.
pub open spec fn opt_view(o: Option<String>) -> Option<Seq<char>> {
    match o {
        Some(s) => Some(s@),
        None => None,
    }
}

fn opt_string(o: Option<Vec<char>>) -> (r: Option<String>)
    ensures
        opt_view(r) == match o {
            Some(v) => Some(v@),
            None => None::<Seq<char>>,
        },
{
    match o {
        Some(v) => Some(string_of(&v)),
        None => None,
    }
}

/// The file name of `path` (`Path::file_name` on Windows).
pub fn file_name(path: &str) -> (r: Option<String>)
    ensures
        opt_view(r) == spec_file_name(path@),
{
    opt_string(file_name_chars(&chars_of(path)))
}

/// The stem of the file name of `path` (`Path::file_stem` on Windows).
pub fn file_stem(path: &str) -> (r: Option<String>)
    ensures
        opt_view(r) == match spec_file_name(path@) {
            Some(n) => Some(stem_of(n)),
            None => None,
        },
{
    match file_name_chars(&chars_of(path)) {
        Some(n) => Some(string_of(&stem_chars(&n))),
        None => None,
    }
}

/// The extension of the file name of `path` (`Path::extension` on
/// Windows).
pub fn extension(path: &str) -> (r: Option<String>)
    ensures
        opt_view(r) == match spec_file_name(path@) {
            Some(n) => extension_of(n),
            None => None,
        },
{
    match file_name_chars(&chars_of(path)) {
        Some(n) => opt_string(extension_chars(&n)),
        None => None,
    }
}

/// The parent of `path` (`Path::parent` on Windows).
pub fn parent(path: &str) -> (r: Option<String>)
    ensures
        opt_view(r) == spec_parent(path@),
{
    opt_string(parent_chars(&chars_of(path)))
}

/// `base` joined with `name` (`Path::join` on Windows).
pub fn join(base: &str, name: &str) -> (r: String)
    ensures
        r@ == spec_join(base@, name@),
{
    string_of(&join_chars(&chars_of(base), &chars_of(name)))
}


/// A name that can stand as the last component of a path: not empty, no
/// separator, no drive, not `.` or `..`.
pub open spec fn is_plain_name(n: Seq<char>) -> bool {
    &&& n.len() > 0
    &&& prefix_len(n) == 0
    &&& forall|i: int| 0 <= i < n.len() ==> !is_separator(#[trigger] n[i])
    &&& n != seq!['.']
    &&& n != seq!['.', '.']
}

proof fn lemma_next_sep_bounds(s: Seq<char>, j: int, vb: bool)
    requires
        0 <= j <= s.len(),
    ensures
        j <= next_sep(s, j, vb) <= s.len(),
        next_sep(s, j, vb) < s.len() ==> sep_in(vb, s[next_sep(s, j, vb)]),
        forall|i: int| j <= i < next_sep(s, j, vb) ==> !sep_in(vb, #[trigger] s[i]),
    decreases s.len() - j,
{
    if j < s.len() && !sep_in(vb, s[j]) {
        lemma_next_sep_bounds(s, j + 1, vb);
    }
}

/// `next_sep` reads `s` only up to the separator it finds.
proof fn lemma_next_sep_same(s: Seq<char>, t: Seq<char>, j: int, k: int, vb: bool)
    requires
        0 <= j <= k,
        k <= s.len(),
        k <= t.len(),
        s.take(k) == t.take(k),
        next_sep(s, j, vb) < k,
    ensures
        next_sep(t, j, vb) == next_sep(s, j, vb),
    decreases k - j,
{
    lemma_next_sep_bounds(s, j, vb);
    assert(s[j] == s.take(k)[j]);
    assert(t[j] == t.take(k)[j]);
    if !sep_in(vb, s[j]) {
        lemma_next_sep_same(s, t, j + 1, k, vb);
    }
}

/// When no separator is found before `k`, none is found in the first `k`
/// characters either.
proof fn lemma_next_sep_none(s: Seq<char>, j: int, k: int, vb: bool)
    requires
        0 <= j <= k <= s.len(),
        next_sep(s, j, vb) >= k,
    ensures
        next_sep(s.take(k), j, vb) == k,
    decreases k - j,
{
    if j < k {
        assert(s.take(k)[j] == s[j]);
        lemma_next_sep_none(s, j + 1, k, vb);
    }
}

/// The prefix of a path does not change when the path is cut after it.
#[verifier::rlimit(40)]
proof fn lemma_prefix_take(s: Seq<char>, k: int)
    requires
        0 <= k <= s.len(),
        prefix_len(s) <= k,
    ensures
        prefix_len(s.take(k)) == prefix_len(s),
        is_disk(s.take(k)) == is_disk(s),
        is_verbatim(s.take(k)) == is_verbatim(s),
{
    let b = s.take(k);
    assert(b.take(k) =~= s.take(k));
    if k >= 1 {
        assert(b[0] == s[0]);
    }
    if k >= 2 {
        assert(b[1] == s[1]);
    }
    if k >= 4 {
        assert(b[2] == s[2] && b[3] == s[3]);
    }
    if k >= 8 {
        assert(b[4] == s[4] && b[5] == s[5] && b[6] == s[6] && b[7] == s[7]);
    }
    if two_seps(s) {
        let vb = is_verbatim(s);
        let st: int = if is_verbatim_unc(s) { 8 } else if is_verbatim(s) || is_device(s) { 4 } else { 2 };
        lemma_next_sep_bounds(s, st, vb);
        let a = next_sep(s, st, vb);
        if a < s.len() {
            lemma_next_sep_bounds(s, a + 1, vb);
        }
        if k >= 2 {
            assert(st <= k);
            if a < k {
                lemma_next_sep_same(s, b, st, k, vb);
                let c = next_sep(s, a + 1, vb);
                if c < k {
                    lemma_next_sep_same(s, b, a + 1, k, vb);
                } else {
                    lemma_next_sep_none(s, a + 1, k, vb);
                }
            } else {
                lemma_next_sep_none(s, st, k, vb);
            }
        }
    }
}

/// A folder that names a server without a share, `\\server` or
/// `\\?\UNC\server\`: joining a name to it makes a share of the name.
pub open spec fn is_bare_server(b: Seq<char>) -> bool {
    ||| {
        &&& b.len() >= 3
        &&& two_seps(b)
        &&& forall|i: int| 2 <= i < b.len() ==> !is_separator(#[trigger] b[i])
    }
    ||| is_verbatim_unc(b) && next_sep(b, 8, true) == b.len() - 1
}

/// Joining a plain name to a folder keeps the folder's prefix, unless the
/// folder is a bare server name.
#[verifier::rlimit(60)]
proof fn lemma_prefix_join(b: Seq<char>, n: Seq<char>)
    requires
        is_plain_name(n),
        !is_verbatim(b),
        !is_bare_server(b),
        prefix_len(b) > 0 && !is_disk(b) ==> phys_root(b),
        b.len() == 0 || b.len() == body_start(b) || !is_separator(b.last()),
    ensures
        prefix_len(spec_join(b, n)) == prefix_len(b),
        is_disk(spec_join(b, n)) == is_disk(b),
        !is_verbatim(spec_join(b, n)),
        spec_join(b, n).take(b.len() as int) == b,
{
    let t = spec_join(b, n);
    let mid: Seq<char> = if needs_separator(b) { seq!['\\'] } else { seq![] };
    assert(n.len() == 0 || !is_separator(n[0]));
    assert(t == b + mid + n);
    assert(t.take(b.len() as int) =~= b);
    assert(b.take(b.len() as int) =~= b);
    assert forall|i: int| 0 <= i < b.len() implies t[i] == b[i] by {}
    lemma_prefix_len_nonneg(b);
    if b.len() == 0 {
        assert(t =~= n);
    } else if b.len() == 1 {
        if is_separator(b[0]) {
            assert(!needs_separator(b));
            assert(t[1] == n[0]);
        } else {
            assert(!two_seps(b));
            if needs_separator(b) {
                assert(t[1] == '\\');
            }
        }
    } else if !two_seps(b) {
        assert(t[0] == b[0] && t[1] == b[1]);
    } else {
        // Two separators: a share, a device, or no prefix at all.
        assert(t[0] == b[0] && t[1] == b[1]);
        lemma_next_sep_bounds(b, 2, false);
        let a = next_sep(b, 2, false);
        if b.len() >= 4 {
            assert(t[2] == b[2] && t[3] == b[3]);
        }
        if prefix_len(b) > 0 {
            // The prefix ends at a separator inside `b`.
            let pl = prefix_len(b);
            assert(pl < b.len() && is_separator(b[pl]));
            if is_device(b) {
                lemma_next_sep_bounds(b, 4, false);
                lemma_next_sep_same(b, t, 4, b.len() as int, false);
            } else {
                lemma_next_sep_same(b, t, 2, b.len() as int, false);
                lemma_next_sep_bounds(b, a + 1, false);
                lemma_next_sep_same(b, t, a + 1, b.len() as int, false);
            }
        } else {
            // No prefix: an empty server, or an empty share.
            assert(body_start(b) == 1);
            assert(!is_separator(b.last()));
            if b.len() == 3 {
                assert(is_separator(b[2]));
            }
            assert(a < b.len()) by {
                if a == b.len() {
                    assert(is_bare_server(b));
                }
            }
            lemma_next_sep_same(b, t, 2, b.len() as int, false);
            if a > 2 {
                lemma_next_sep_bounds(b, a + 1, false);
                assert(a + 1 < b.len());
                lemma_next_sep_same(b, t, a + 1, b.len() as int, false);
            }
        }
    }
}

proof fn lemma_prefix_len_nonneg(s: Seq<char>)
    ensures
        0 <= prefix_len(s) <= s.len(),
        is_verbatim(s) ==> prefix_len(s) >= 4,
{
    if two_seps(s) {
        lemma_next_sep_bounds(s, 2, false);
        let a = next_sep(s, 2, false);
        if a < s.len() {
            lemma_next_sep_bounds(s, a + 1, false);
        }
        if is_verbatim(s) {
            lemma_next_sep_bounds(s, 4, true);
            if is_verbatim_unc(s) {
                lemma_next_sep_bounds(s, 8, true);
                let c = next_sep(s, 8, true);
                if c < s.len() {
                    lemma_next_sep_bounds(s, c + 1, true);
                }
            }
        } else if is_device(s) {
            lemma_next_sep_bounds(s, 4, false);
        }
    }
}

proof fn lemma_component_start_run(s: Seq<char>, lo: int, b: int, e: int, vb: bool)
    requires
        0 <= lo <= b <= e <= s.len(),
        b == lo || sep_in(vb, s[b - 1]),
        forall|k: int| b <= k < e ==> !sep_in(vb, #[trigger] s[k]),
    ensures
        component_start(s, lo, e, vb) == b,
    decreases e - lo,
{
    if e > b {
        lemma_component_start_run(s, lo, b, e - 1, vb);
    }
}

proof fn lemma_content_end_agree(s1: Seq<char>, s2: Seq<char>, lo: int, e: int, vb: bool)
    requires
        0 <= lo,
        e <= s1.len(),
        e <= s2.len(),
        s1.take(e) == s2.take(e),
    ensures
        content_end(s1, lo, e, vb) == content_end(s2, lo, e, vb),
    decreases e - lo,
{
    if e > lo {
        assert(s1[e - 1] == s1.take(e)[e - 1]);
        assert(s2[e - 1] == s2.take(e)[e - 1]);
        if e - 1 > lo {
            assert(s1[e - 2] == s1.take(e)[e - 2]);
            assert(s2[e - 2] == s2.take(e)[e - 2]);
        }
        assert(s1.take(e - 1) == s1.take(e).take(e - 1));
        assert(s2.take(e - 1) == s2.take(e).take(e - 1));
        lemma_content_end_agree(s1, s2, lo, e - 1, vb);
    }
}

proof fn lemma_content_end_fixed(s: Seq<char>, lo: int, e: int, vb: bool)
    requires
        0 <= lo <= e <= s.len(),
    ensures
        lo <= content_end(s, lo, e, vb) <= e,
        content_end(s, lo, content_end(s, lo, e, vb), vb) == content_end(s, lo, e, vb),
    decreases e - lo,
{
    if e > lo {
        lemma_content_end_fixed(s, lo, e - 1, vb);
    }
}

proof fn lemma_body_start_bounds(s: Seq<char>)
    ensures
        0 <= prefix_len(s) <= body_start(s) <= s.len(),
{
    lemma_prefix_len_nonneg(s);
}

/// Joining a plain name to a folder (not verbatim, not a bare server name,
/// whose prefix other than a drive is followed by a root, and that does
/// not end in separators or `.` components) gives a path whose parent is
/// that folder and whose file name is that name.
#[verifier::rlimit(80)]
proof fn lemma_join_plain(b: Seq<char>, n: Seq<char>)
    requires
        is_plain_name(n),
        !is_verbatim(b),
        !is_bare_server(b),
        prefix_len(b) > 0 && !is_disk(b) ==> phys_root(b),
        content_end(b, body_start(b), b.len() as int, false) == b.len(),
    ensures
        spec_parent(spec_join(b, n)) == Some(b),
        spec_file_name(spec_join(b, n)) == Some(n),
{
    let lo = body_start(b);
    let pl = prefix_len(b);
    lemma_body_start_bounds(b);
    assert(b.len() == 0 || b.len() == lo || !is_separator(b.last())) by {
        if b.len() > lo {
            lemma_content_end_fixed(b, lo, b.len() - 1, false);
        }
    }
    lemma_prefix_join(b, n);
    let t = spec_join(b, n);
    let mid: Seq<char> = if needs_separator(b) { seq!['\\'] } else { seq![] };
    assert(t == b + mid + n);
    let m: int = (b.len() + mid.len()) as int;
    assert(t.len() == m + n.len());
    assert forall|i: int| 0 <= i < b.len() implies t[i] == b[i] by {}
    assert forall|i: int| 0 <= i < n.len() implies t[m + i] == n[i] by {}
    assert(prefix_len(t) == pl);
    assert(is_verbatim(t) == false);
    // The joined path has the same root and components start.
    assert(phys_root(t) == phys_root(b)) by {
        if b.len() > pl {
            assert(t[pl] == b[pl]);
        } else {
            assert(!needs_separator(b));
            assert(t[pl] == n[0]);
        }
    }
    assert(cur_dir(t) == cur_dir(b)) by {
        if b.len() > pl + 1 {
            assert(t[pl] == b[pl] && t[pl + 1] == b[pl + 1]);
        } else if b.len() == pl + 1 {
            assert(t[pl] == b[pl]);
            if needs_separator(b) {
                assert(t[pl + 1] == '\\');
            } else {
                assert(is_separator(b.last()));
            }
        } else {
            assert(!needs_separator(b));
            assert(t[pl] == n[0]);
            if n.len() >= 2 {
                assert(t[pl + 1] == n[1]);
            } else if n[0] == '.' {
                assert(n =~= seq!['.']);
            }
        }
    }
    assert(body_start(t) == lo);
    // The last component of the joined path is the new name.
    assert(content_end(t, lo, t.len() as int, false) == t.len()) by {
        let l = t.len() - 1;
        assert(t[l] == n[n.len() - 1]);
        if n.len() >= 2 {
            assert(t[l - 1] == n[n.len() - 2]);
        } else if t[l] == '.' {
            assert(n =~= seq!['.']);
        }
    }
    assert(m == lo || is_separator(t[m - 1])) by {
        if mid.len() == 1 {
            assert(t[m - 1] == '\\');
        } else if b.len() > 0 && b.len() != lo {
            assert(t[m - 1] == b[b.len() - 1]);
        }
    }
    lemma_component_start_run(t, lo, m, t.len() as int, false);
    assert(last_start(t) == m);
    assert(t.subrange(m, t.len() as int) =~= n);
    // What precedes the new name is the folder.
    assert(content_end(t, lo, m, false) == b.len()) by {
        assert(t.take(b.len() as int) =~= b.take(b.len() as int));
        lemma_content_end_agree(t, b, lo, b.len() as int, false);
        if mid.len() == 1 {
            assert(t[m - 1] == '\\');
        }
    }
    assert(t.take(b.len() as int) =~= b);
}

proof fn lemma_content_end_shape(s: Seq<char>, lo: int, e: int, vb: bool)
    requires
        0 <= lo <= e <= s.len(),
    ensures
        ({
            let r = content_end(s, lo, e, vb);
            r > lo ==> !sep_in(vb, s[r - 1]) && !(!vb && s[r - 1] == '.' && (r - 1 == lo
                || is_separator(s[r - 2])))
        }),
    decreases e - lo,
{
    if e > lo {
        lemma_content_end_shape(s, lo, e - 1, vb);
    }
}

/// A prefix other than a drive ends at the end of the path or at a
/// separator.
proof fn lemma_prefix_ends_at_sep(s: Seq<char>)
    requires
        prefix_len(s) > 0,
        !is_disk(s),
        prefix_len(s) < s.len(),
    ensures
        is_separator(s[prefix_len(s)]),
        is_verbatim(s) ==> s[prefix_len(s)] == '\\',
{
    lemma_prefix_len_nonneg(s);
    lemma_next_sep_bounds(s, 2, false);
    let a = next_sep(s, 2, false);
    if a < s.len() {
        lemma_next_sep_bounds(s, a + 1, false);
    }
    if is_verbatim(s) {
        lemma_next_sep_bounds(s, 4, true);
        if is_verbatim_unc(s) {
            lemma_next_sep_bounds(s, 8, true);
            let c = next_sep(s, 8, true);
            if c < s.len() {
                lemma_next_sep_bounds(s, c + 1, true);
            }
        }
    } else if is_device(s) {
        lemma_next_sep_bounds(s, 4, false);
    }
}

/// The folder of a path that is not verbatim (its parent, or the empty
/// path) has what joining a plain name to it needs.
#[verifier::rlimit(60)]
proof fn lemma_parent_folder(p: Seq<char>)
    requires
        !is_verbatim(p),
    ensures
        ({
            let b = match spec_parent(p) {
                Some(q) => q,
                None => Seq::<char>::empty(),
            };
            &&& !is_verbatim(b)
            &&& prefix_len(b) > 0 && !is_disk(b) ==> phys_root(b)
            &&& content_end(b, body_start(b), b.len() as int, false) == b.len()
        }),
{
    let lo = body_start(p);
    let pl = prefix_len(p);
    lemma_body_start_bounds(p);
    if last_end(p) > lo {
        lemma_content_end_fixed(p, lo, p.len() as int, false);
        let e = last_end(p);
        let st = last_start(p);
        lemma_component_start_bounds(p, lo, e, false);
        lemma_content_end_fixed(p, lo, st, false);
        let k = content_end(p, lo, st, false);
        let b = p.take(k);
        assert(spec_parent(p) == Some(b));
        lemma_prefix_take(p, k);
        assert(prefix_len(b) == pl);
        if pl > 0 && !is_disk(p) {
            lemma_prefix_ends_at_sep(p);
        }
        assert(phys_root(b) == phys_root(p)) by {
            if k > pl {
                assert(b[pl] == p[pl]);
            }
        }
        assert(cur_dir(b) == cur_dir(p)) by {
            if k > pl {
                assert(b[pl] == p[pl]);
            }
            if k > pl + 1 {
                assert(b[pl + 1] == p[pl + 1]);
            }
            if k == pl + 1 && !cur_dir(p) && !has_root(p) && p[pl] == '.' {
                lemma_content_end_shape(p, lo, st, false);
            }
        }
        assert(body_start(b) == lo);
        assert(content_end(b, lo, k, false) == k) by {
            assert(b.take(k) =~= p.take(k));
            lemma_content_end_agree(b, p, lo, k, false);
        }
    }
}

/// What joining writes for a verbatim folder: its prefix, a `\`, and
/// its components separated by single `\`.
pub open spec fn verbatim_rebuilt(b: Seq<char>) -> Seq<char> {
    b.take(prefix_len(b)) + seq!['\\'] + join_comps(comps_from(b, body_start(b), true))
}

proof fn lemma_comps_shape(s: Seq<char>, k: int, vb: bool)
    requires
        0 <= k,
    ensures
        forall|i: int|
            0 <= i < comps_from(s, k, vb).len() ==> (#[trigger] comps_from(s, k, vb)[i]).len() > 0
                && forall|j: int|
                0 <= j < comps_from(s, k, vb)[i].len() ==> !sep_in(vb, comps_from(s, k, vb)[i][j]),
    decreases s.len() - k,
{
    if k < s.len() {
        lemma_next_sep_bounds(s, k, vb);
        let e = next_sep(s, k, vb);
        if e < s.len() {
            lemma_comps_shape(s, e + 1, vb);
        }
        let c = s.subrange(k, e);
        assert forall|j: int| 0 <= j < c.len() implies !sep_in(vb, c[j]) by {
            assert(c[j] == s[k + j]);
        }
        let rest: Seq<Seq<char>> = if e < s.len() { comps_from(s, e + 1, vb) } else { seq![] };
        let r = comps_from(s, k, vb);
        if !(c.len() == 0 || (!vb && c == seq!['.'])) {
            assert(r == seq![c] + rest);
            assert forall|i: int| 0 < i < r.len() implies r[i] == rest[i - 1] by {}
        } else {
            assert(r == rest);
        }
    }
}

proof fn lemma_join_comps_last(cs: Seq<Seq<char>>)
    requires
        cs.len() > 0,
        cs.last().len() > 0,
    ensures
        join_comps(cs).len() > 0,
        join_comps(cs).last() == cs.last().last(),
{
}

/// The prefix of a path whose prefix (not a drive) is followed by a
/// separator stays the same when the path is extended.
proof fn lemma_prefix_extend(b: Seq<char>, t: Seq<char>)
    requires
        t.len() >= b.len(),
        t.take(b.len() as int) == b,
        prefix_len(b) > 0,
        !is_disk(b),
        phys_root(b),
        !is_bare_server(b),
    ensures
        prefix_len(t) == prefix_len(b),
        is_disk(t) == is_disk(b),
        is_verbatim(t) == is_verbatim(b),
{
    lemma_prefix_len_nonneg(b);
    assert(b.take(b.len() as int) =~= b);
    assert forall|i: int| 0 <= i < b.len() implies t[i] == b[i] by {
        assert(t.take(b.len() as int)[i] == t[i]);
    }
    let pl = prefix_len(b);
    assert(two_seps(b)) by {
        if !two_seps(b) {
            assert(is_drive_at(b));
        }
    }
    assert(b.len() >= 4 ==> t[2] == b[2] && t[3] == b[3]);
    assert(b.len() >= 8 ==> t[4] == b[4] && t[5] == b[5] && t[6] == b[6] && t[7] == b[7]);
    let vb = is_verbatim(b);
    let st: int = if is_verbatim_unc(b) { 8 } else if is_verbatim(b) || is_device(b) { 4 } else { 2 };
    lemma_next_sep_bounds(b, st, vb);
    let a = next_sep(b, st, vb);
    if a < b.len() {
        lemma_next_sep_same(b, t, st, b.len() as int, vb);
        lemma_next_sep_bounds(b, a + 1, vb);
        if next_sep(b, a + 1, vb) < b.len() {
            lemma_next_sep_same(b, t, a + 1, b.len() as int, vb);
        }
    }
}

/// Joining a plain name to a verbatim folder: its prefix, a `\`, its
/// components and the name, separated by `\`.
#[verifier::rlimit(40)]
proof fn lemma_verbatim_join_push(b: Seq<char>, n: Seq<char>)
    requires
        is_plain_name(n),
        is_verbatim(b),
    ensures
        ({
            let cs = comps_from(b, body_start(b), true);
            spec_join(b, n) == b.take(prefix_len(b)) + seq!['\\'] + (if cs.len() > 0 {
                join_comps(cs) + seq!['\\'] + n
            } else {
                n
            })
        }),
{
    reveal(verbatim_join);
    let cs = comps_from(b, body_start(b), true);
    lemma_next_sep_bounds(n, 0, false);
    assert(next_sep(n, 0, false) == n.len());
    assert(n.subrange(0, n.len() as int) =~= n);
    assert(body_start(n) == 0) by {
        if n[0] == '.' && n.len() >= 2 {
            assert(!is_separator(n[1]));
        }
        if n[0] == '.' && n.len() == 1 {
            assert(n =~= seq!['.']);
        }
    }
    assert(comps_from(n, 0, false) =~= seq![n]);
    assert(!phys_root(n));
    assert(seq![n].skip(1) =~= Seq::<Seq<char>>::empty());
    assert(seq![n][0] == n);
    assert(n != seq!['.', '.']);
    assert(push_comps(cs.push(n), Seq::<Seq<char>>::empty()) == cs.push(n));
    assert(push_comps(cs, seq![n]) == cs.push(n));
    assert(cs.push(n).drop_last() =~= cs);
    let head = b.take(prefix_len(b));
    assert(spec_join(b, n) == head + seq!['\\'] + join_comps(cs.push(n)));
    if cs.len() == 0 {
        assert(join_comps(cs.push(n)) == n);
    } else {
        assert(join_comps(cs.push(n)) == join_comps(cs) + seq!['\\'] + n);
    }
}

/// Joining a plain name to a verbatim folder written the way joining
/// writes it appends the name, with a `\` unless the folder has no
/// component.
proof fn lemma_verbatim_join_appends(b: Seq<char>, n: Seq<char>)
    requires
        is_plain_name(n),
        is_verbatim(b),
        b == verbatim_rebuilt(b),
    ensures
        spec_join(b, n) == b + (if comps_from(b, body_start(b), true).len() > 0 {
            seq!['\\']
        } else {
            Seq::<char>::empty()
        }) + n,
{
    lemma_verbatim_join_push(b, n);
    let cs = comps_from(b, body_start(b), true);
    let head = b.take(prefix_len(b));
    if cs.len() == 0 {
        assert(join_comps(cs) =~= Seq::<char>::empty());
        assert(b =~= head + seq!['\\']);
        assert(spec_join(b, n) =~= b + Seq::<char>::empty() + n);
    } else {
        assert(spec_join(b, n) =~= b + seq!['\\'] + n);
    }
}

/// Joining a plain name to a verbatim folder with a root that is written
/// the way joining writes it gives a path whose parent is that folder and
/// whose file name is that name.
#[verifier::rlimit(60)]
proof fn lemma_join_verbatim(b: Seq<char>, n: Seq<char>)
    requires
        is_plain_name(n),
        is_verbatim(b),
        phys_root(b),
        !is_bare_server(b),
        b == verbatim_rebuilt(b),
    ensures
        spec_parent(spec_join(b, n)) == Some(b),
        spec_file_name(spec_join(b, n)) == Some(n),
{
    let pl = prefix_len(b);
    lemma_prefix_len_nonneg(b);
    let lo = body_start(b);
    assert(lo == pl + 1);
    let cs = comps_from(b, lo, true);
    lemma_comps_shape(b, lo, true);
    lemma_verbatim_join_appends(b, n);
    let t = spec_join(b, n);
    let head = b.take(pl);
    let mid: Seq<char> = if cs.len() > 0 { seq!['\\'] } else { seq![] };
    assert(t == b + mid + n);
    let m: int = (b.len() + mid.len()) as int;
    assert(t.len() == m + n.len());
    assert(t.take(b.len() as int) =~= b);
    assert forall|i: int| 0 <= i < b.len() implies t[i] == b[i] by {}
    assert forall|i: int| 0 <= i < n.len() implies t[m + i] == n[i] by {}
    lemma_prefix_extend(b, t);
    assert(phys_root(t)) by {
        assert(t[pl] == b[pl]);
    }
    assert(body_start(t) == lo);
    assert(b.len() >= lo);
    // The last component is the new name.
    assert(content_end(t, lo, t.len() as int, true) == t.len()) by {
        assert(t[t.len() - 1] == n[n.len() - 1]);
    }
    assert(m == lo || t[m - 1] == '\\') by {
        if cs.len() == 0 {
            assert(join_comps(cs) =~= Seq::<char>::empty());
            assert(b =~= head + seq!['\\']);
            assert(t[m - 1] == b[b.len() - 1]);
        } else {
            assert(t[m - 1] == '\\');
        }
    }
    lemma_component_start_run(t, lo, m, t.len() as int, true);
    assert(last_start(t) == m);
    assert(t.subrange(m, t.len() as int) =~= n);
    // What precedes it is the folder.
    assert(content_end(t, lo, m, true) == b.len()) by {
        if cs.len() > 0 {
            assert(t[m - 1] == '\\');
            lemma_join_comps_last(cs);
            let jc = join_comps(cs);
            assert(b =~= head + seq!['\\'] + jc);
            assert(b[b.len() - 1] == jc.last());
            assert(!sep_in(true, cs.last().last())) by {
                assert(cs.last() == cs[cs.len() - 1]);
            }
            assert(t.take(b.len() as int) =~= b.take(b.len() as int));
            lemma_content_end_agree(t, b, lo, b.len() as int, true);
        } else {
            assert(join_comps(cs) =~= Seq::<char>::empty());
            assert(b =~= head + seq!['\\']);
        }
    }
}

/// The parent of a verbatim path is verbatim and has a root.
proof fn lemma_verbatim_parent(p: Seq<char>)
    requires
        is_verbatim(p),
        spec_parent(p) is Some,
    ensures
        is_verbatim(spec_parent(p)->0),
        phys_root(spec_parent(p)->0),
{
    let lo = body_start(p);
    let pl = prefix_len(p);
    lemma_body_start_bounds(p);
    lemma_prefix_len_nonneg(p);
    assert(last_end(p) > lo);
    lemma_content_end_fixed(p, lo, p.len() as int, true);
    let e = last_end(p);
    let st = last_start(p);
    lemma_component_start_bounds(p, lo, e, true);
    lemma_content_end_fixed(p, lo, st, true);
    let k = content_end(p, lo, st, true);
    let b = p.take(k);
    assert(spec_parent(p) == Some(b));
    lemma_prefix_take(p, k);
    lemma_prefix_ends_at_sep(p);
    assert(b[pl] == p[pl]);
}

proof fn lemma_join_comps_head(cs: Seq<Seq<char>>)
    requires
        cs.len() >= 2,
    ensures
        join_comps(cs).len() > cs[0].len(),
        join_comps(cs).take(cs[0].len() as int) == cs[0],
        join_comps(cs)[cs[0].len() as int] == '\\',
    decreases cs.len(),
{
    let d = cs.drop_last();
    assert(d[0] == cs[0]);
    if cs.len() == 2 {
        assert(join_comps(d) == cs[0]);
        assert((cs[0] + seq!['\\'] + cs.last()).take(cs[0].len() as int) =~= cs[0]);
    } else {
        lemma_join_comps_head(d);
        let jd = join_comps(d);
        assert((jd + seq!['\\'] + cs.last()).take(cs[0].len() as int) =~= jd.take(
            cs[0].len() as int,
        ));
    }
}

proof fn lemma_comps_nonempty(s: Seq<char>, k: int, j: int)
    requires
        0 <= k <= j < s.len(),
        !sep_in(true, s[j]),
    ensures
        comps_from(s, k, true).len() > 0,
    decreases j - k,
{
    lemma_next_sep_bounds(s, k, true);
    let e = next_sep(s, k, true);
    if e <= j {
        assert(e < j);
        lemma_comps_nonempty(s, e + 1, j);
    } else {
        assert(s.subrange(k, e).len() > 0);
    }
}

proof fn lemma_next_sep_run(s: Seq<char>, j: int, q: int, vb: bool)
    requires
        0 <= j <= q < s.len(),
        sep_in(vb, s[q]),
        forall|i: int| j <= i < q ==> !sep_in(vb, #[trigger] s[i]),
    ensures
        next_sep(s, j, vb) == q,
    decreases q - j,
{
    if j < q {
        lemma_next_sep_run(s, j + 1, q, vb);
    }
}

/// Joining a plain name to a verbatim folder with a root, whose prefix
/// does not end on a bare server name or which has a component, gives a
/// path whose file name is that name.
#[verifier::rlimit(80)]
proof fn lemma_verbatim_name(b: Seq<char>, n: Seq<char>)
    requires
        is_plain_name(n),
        is_verbatim(b),
        phys_root(b),
        !is_bare_server(b.take(prefix_len(b) + 1)) || comps_from(b, body_start(b), true).len()
            > 0,
    ensures
        spec_file_name(spec_join(b, n)) == Some(n),
{
    let pl = prefix_len(b);
    lemma_prefix_len_nonneg(b);
    lemma_prefix_ends_at_sep(b);
    assert(b[pl] == '\\');
    let lo = body_start(b);
    let cs = comps_from(b, lo, true);
    lemma_comps_shape(b, lo, true);
    lemma_verbatim_join_push(b, n);
    let t = spec_join(b, n);
    let head = b.take(pl);
    let jc = join_comps(cs);
    let x = if cs.len() > 0 { head + seq!['\\'] + jc } else { head };
    assert(t =~= x + seq!['\\'] + n);
    let m: int = (x.len() + 1) as int;
    assert(t.len() == m + n.len());
    assert forall|i: int| 0 <= i < n.len() implies t[m + i] == n[i] by {}
    assert(t[m - 1] == '\\');
    let b1 = b.take(pl + 1);
    assert(t.take(pl + 1) =~= b1) by {
        assert forall|i: int| 0 <= i < pl + 1 implies t[i] == b1[i] by {
            if i < pl {
                assert(t[i] == head[i]);
            }
        }
    }
    lemma_prefix_take(b, pl + 1);
    assert(b1.len() == pl + 1);
    assert(b1[pl] == '\\');
    // The prefix of the joined path ends before the name.
    if !is_bare_server(b1) {
        lemma_prefix_extend(b1, t);
        assert(prefix_len(t) == pl);
        assert(m - 1 >= pl);
    } else {
        assert(cs.len() > 0);
        let c0 = cs[0];
        let q: int = pl + 1 + c0.len();
        assert(c0.len() > 0);
        assert forall|i: int| 0 <= i < c0.len() implies t[pl + 1 + i] == c0[i] by {
            if cs.len() >= 2 {
                lemma_join_comps_head(cs);
                assert(jc.take(c0.len() as int)[i] == jc[i]);
            } else {
                assert(jc == c0);
            }
            assert(t[pl + 1 + i] == jc[i]);
        }
        assert(t[q] == '\\' && q <= m - 1) by {
            if cs.len() >= 2 {
                lemma_join_comps_head(cs);
                assert(t[q] == jc[c0.len() as int]);
            } else {
                assert(jc == c0);
            }
        }
        assert forall|i: int| pl + 1 <= i < q implies !sep_in(true, #[trigger] t[i]) by {
            assert(t[i] == c0[i - pl - 1]);
        }
        lemma_next_sep_run(t, pl + 1, q, true);
        assert(b1.take(pl + 1) =~= b1);
        lemma_next_sep_same(b1, t, 8, pl + 1, true);
        assert(is_verbatim_unc(t)) by {
            assert(t[4] == b1[4] && t[5] == b1[5] && t[6] == b1[6] && t[7] == b1[7]);
            assert(t[0] == b1[0] && t[1] == b1[1] && t[2] == b1[2] && t[3] == b1[3]);
        }
        assert(prefix_len(t) == q);
    }
    assert(is_verbatim(t)) by {
        assert(t[0] == b1[0] && t[1] == b1[1] && t[2] == b1[2] && t[3] == b1[3]);
    }
    lemma_prefix_len_nonneg(t);
    let tlo = body_start(t);
    assert(tlo <= m);
    assert(content_end(t, tlo, t.len() as int, true) == t.len()) by {
        assert(t[t.len() - 1] == n[n.len() - 1]);
    }
    lemma_component_start_run(t, tlo, m, t.len() as int, true);
    assert(last_start(t) == m);
    assert(t.subrange(m, t.len() as int) =~= n);
}

/// The folder of a verbatim path that is not a bare server name either
/// has a component or does not end its prefix on a bare server name.
proof fn lemma_verbatim_folder_comps(p: Seq<char>)
    requires
        is_verbatim(p),
        spec_parent(p) is Some,
        !is_bare_server(spec_parent(p)->0),
    ensures
        ({
            let b = spec_parent(p)->0;
            !is_bare_server(b.take(prefix_len(b) + 1)) || comps_from(b, body_start(b), true).len()
                > 0
        }),
{
    let lo = body_start(p);
    let pl = prefix_len(p);
    lemma_body_start_bounds(p);
    lemma_prefix_len_nonneg(p);
    lemma_content_end_fixed(p, lo, p.len() as int, true);
    let e = last_end(p);
    let st = last_start(p);
    lemma_component_start_bounds(p, lo, e, true);
    lemma_content_end_fixed(p, lo, st, true);
    let k = content_end(p, lo, st, true);
    let b = p.take(k);
    assert(spec_parent(p) == Some(b));
    lemma_prefix_take(p, k);
    lemma_prefix_ends_at_sep(p);
    assert(b[pl] == p[pl]);
    assert(body_start(b) == lo);
    assert(lo == pl + 1);
    if k == lo {
        assert(b.take(pl + 1) =~= b);
    } else {
        lemma_content_end_shape(p, lo, st, true);
        assert(b[k - 1] == p[k - 1]);
        lemma_comps_nonempty(b, lo, k - 1);
    }
}

/// The new name is the name a file gets: joining the folder of a path
/// (its parent, or the empty path when it has none) with a plain name
/// gives a path whose file name is that name, unless the folder names a
/// server without a share.
pub proof fn lemma_rename_keeps_name(p: Seq<char>, n: Seq<char>)
    requires
        is_plain_name(n),
        !is_bare_server(
            match spec_parent(p) {
                Some(q) => q,
                None => Seq::<char>::empty(),
            },
        ),
    ensures
        spec_file_name(
            spec_join(
                match spec_parent(p) {
                    Some(q) => q,
                    None => Seq::<char>::empty(),
                },
                n,
            ),
        ) == Some(n),
{
    let b = match spec_parent(p) {
        Some(q) => q,
        None => Seq::<char>::empty(),
    };
    if is_verbatim(p) && spec_parent(p) is Some {
        lemma_verbatim_parent(p);
        lemma_verbatim_folder_comps(p);
        lemma_verbatim_name(b, n);
    } else if is_verbatim(p) {
        assert(b.len() == 0);
        assert(body_start(b) == 0);
        lemma_join_plain(b, n);
    } else {
        lemma_parent_folder(p);
        lemma_join_plain(b, n);
    }
}

/// Renaming keeps a file in its folder and gives it exactly the new name:
/// joining the folder of a path (its parent, or the empty path when it
/// has none) with a plain name gives a path whose parent is that folder
/// and whose file name is that name.  The exceptions: a folder that names
/// a server without a share (the join makes a share of the name), and a
/// verbatim folder not written the way joining rewrites it (doubled
/// separators, `..`).
pub proof fn lemma_rename_keeps_folder(p: Seq<char>, n: Seq<char>)
    requires
        is_plain_name(n),
        !is_bare_server(
            match spec_parent(p) {
                Some(q) => q,
                None => Seq::<char>::empty(),
            },
        ),
        is_verbatim(p) && spec_parent(p) is Some ==> spec_parent(p)->0 == verbatim_rebuilt(
            spec_parent(p)->0,
        ),
    ensures
        ({
            let b = match spec_parent(p) {
                Some(q) => q,
                None => Seq::<char>::empty(),
            };
            &&& spec_parent(spec_join(b, n)) == Some(b)
            &&& spec_file_name(spec_join(b, n)) == Some(n)
        }),
{
    let b = match spec_parent(p) {
        Some(q) => q,
        None => Seq::<char>::empty(),
    };
    if is_verbatim(p) && spec_parent(p) is Some {
        lemma_verbatim_parent(p);
        lemma_join_verbatim(b, n);
    } else if is_verbatim(p) {
        assert(b.len() == 0);
        assert(body_start(b) == 0);
        lemma_join_plain(b, n);
    } else {
        lemma_parent_folder(p);
        lemma_join_plain(b, n);
    }
}

proof fn lemma_component_start_bounds(s: Seq<char>, lo: int, e: int, vb: bool)
    requires
        0 <= lo <= e <= s.len(),
    ensures
        lo <= component_start(s, lo, e, vb) <= e,
    decreases e - lo,
{
    if e > lo {
        lemma_component_start_bounds(s, lo, e - 1, vb);
    }
}


/// The last dot of a name is a dot, and no dot follows it.
pub proof fn lemma_last_dot(name: Seq<char>)
    ensures
        -1 <= last_dot(name) < name.len(),
        last_dot(name) >= 0 ==> name[last_dot(name)] == '.',
        forall|k: int| last_dot(name) < k < name.len() ==> name[k] != '.',
    decreases name.len(),
{
    if name.len() > 0 && name.last() != '.' {
        lemma_last_dot(name.drop_last());
        assert forall|k: int| last_dot(name) < k < name.len() implies name[k] != '.' by {
            if k < name.len() - 1 {
                assert(name.drop_last()[k] == name[k]);
            }
        }
    }
}

} // verus!
