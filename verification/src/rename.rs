//! New names for the batch-rename window: search and replace in the stem,
//! prefix, suffix, optional two-digit numbering, and the extension.

use vstd::prelude::*;
use crate::text::{
    chars_of, decimal_nat, decimal_u64, decimal_width2, decimal_width2_i64, extend_chars, parse_i32,
    parse_i32_str, string_of, lemma_decimal_width2_injective,
};
use crate::winpath::{
    extension, extension_of, file_name, file_stem, join, opt_view, parent, spec_file_name, spec_join,
    spec_parent, stem_of, lemma_last_dot, last_dot, is_plain_name, is_bare_server, is_verbatim,
    verbatim_rebuilt, lemma_rename_keeps_folder, lemma_rename_keeps_name,
};

verus! {

/// `s` with every occurrence of `pat` replaced by `rep`, occurrences taken
/// from left to right without overlap (what `str::replace` does for a
/// non-empty pattern).  An empty pattern leaves `s` as it is, where
/// `str::replace` would insert `rep` around every character; new names
/// only search for a pattern that is not empty.
pub open spec fn replace_all(s: Seq<char>, pat: Seq<char>, rep: Seq<char>) -> Seq<char>
    decreases s.len(),
{
    if pat.len() == 0 || s.len() < pat.len() {
        s
    } else if s.take(pat.len() as int) == pat {
        rep + replace_all(s.skip(pat.len() as int), pat, rep)
    } else {
        seq![s[0]] + replace_all(s.skip(1), pat, rep)
    }
}

/// Whether `pat` occurs in `s` at position `i`.
fn occurs_at(s: &Vec<char>, i: usize, pat: &Vec<char>) -> (r: bool)
    requires
        i + pat.len() <= s.len(),
    ensures
        r == (s@.subrange(i as int, i + pat.len()) == pat@),
{
    let mut k: usize = 0;
    while k < pat.len()
        invariant
            k <= pat.len(),
            i + pat.len() <= s.len(),
            forall|j: int| 0 <= j < k ==> s@[i + j] == pat@[j],
        decreases pat.len() - k,
    {
        if s[i + k] != pat[k] {
            assert(s@.subrange(i as int, i + pat.len())[k as int] != pat@[k as int]);
            return false;
        }
        k += 1;
    }
    assert(s@.subrange(i as int, i + pat.len()) =~= pat@);
    true
}

/// The characters of `s` with every occurrence of `pat` replaced by `rep`.
pub fn replace_chars(s: &Vec<char>, pat: &Vec<char>, rep: &Vec<char>) -> (out: Vec<char>)
    ensures
        out@ == replace_all(s@, pat@, rep@),
{
    if pat.len() == 0 {
        return s.clone();
    }
    let mut out: Vec<char> = Vec::new();
    let mut i: usize = 0;
    assert(s@.skip(0) == s@);
    while i < s.len()
        invariant
            i <= s.len(),
            pat.len() > 0,
            out@ + replace_all(s@.skip(i as int), pat@, rep@) == replace_all(s@, pat@, rep@),
        decreases s.len() - i,
    {
        let ghost rest = s@.skip(i as int);
        if pat.len() <= s.len() - i && occurs_at(s, i, pat) {
            assert(rest.take(pat.len() as int) == s@.subrange(i as int, i + pat.len()));
            assert(rest.skip(pat.len() as int) == s@.skip(i + pat.len()));
            let ghost prev = out@;
            extend_chars(&mut out, rep);
            assert(prev + (rep@ + replace_all(rest.skip(pat.len() as int), pat@, rep@))
                == out@ + replace_all(rest.skip(pat.len() as int), pat@, rep@));
            i += pat.len();
        } else {
            let ghost prev = out@;
            out.push(s[i]);
            assert(rest.skip(1) == s@.skip(i + 1));
            proof {
                if rest.len() >= pat@.len() {
                    assert(rest.take(pat.len() as int) == s@.subrange(i as int, i + pat.len()));
                } else {
                    assert(replace_all(rest.skip(1), pat@, rep@) == rest.skip(1));
                    assert(rest == seq![rest[0]] + rest.skip(1));
                }
            }
            assert(prev + replace_all(rest, pat@, rep@)
                == out@ + replace_all(rest.skip(1), pat@, rep@));
            i += 1;
        }
    }
    assert(s@.skip(s.len() as int) == Seq::<char>::empty());
    assert(out@ + Seq::<char>::empty() == out@);
    out
}


/// The new file name: `find` replaced by `replace` in the stem (when `find`
/// is not empty), then `prefix` before it and `suffix` after it; with a
/// number, `'_'` and the number zero-padded to two digits; finally, when
/// the extension is not empty, `'.'` and the extension.
pub open spec fn new_name(
    stem: Seq<char>,
    ext: Seq<char>,
    find: Seq<char>,
    replace: Seq<char>,
    prefix: Seq<char>,
    suffix: Seq<char>,
    number: Option<int>,
) -> Seq<char> {
    let base = prefix + replace_all(stem, find, replace) + suffix;
    let numbered = match number {
        Some(n) => base + seq!['_'] + decimal_width2(n),
        None => base,
    };
    if ext.len() == 0 {
        numbered
    } else {
        numbered + seq!['.'] + ext
    }
}

/// The number that numbering gives the file at position `index`.
pub open spec fn file_number(num_start: i32, index: usize) -> int {
    num_start + (index as i32)
}

/// Whether the number for `index` fits in an `i32`.
pub open spec fn number_fits(num_start: i32, index: usize) -> bool {
    i32::MIN <= file_number(num_start, index) <= i32::MAX
}

/// Computes the new name of one file of the batch (the file at position
/// `index`), from its stem and extension and the window's settings.
pub fn compute_new_name(
    stem: &str,
    ext: &str,
    find: &str,
    replace: &str,
    prefix: &str,
    suffix: &str,
    num_enabled: bool,
    num_start: i32,
    index: usize,
) -> (name: String)
    requires
        num_enabled ==> number_fits(num_start, index),
    ensures
        name@ == new_name(
            stem@,
            ext@,
            find@,
            replace@,
            prefix@,
            suffix@,
            if num_enabled { Some(file_number(num_start, index)) } else { None },
        ),
{
    let stem_v = chars_of(stem);
    let find_v = chars_of(find);
    let replace_v = chars_of(replace);
    let mut out = chars_of(prefix);
    let replaced = replace_chars(&stem_v, &find_v, &replace_v);
    extend_chars(&mut out, &replaced);
    extend_chars(&mut out, &chars_of(suffix));
    if num_enabled {
        let val: i32 = num_start + index as i32;
        out.push('_');
        extend_chars(&mut out, &decimal_width2_i64(val as i64));
    }
    let ext_v = chars_of(ext);
    if ext_v.len() > 0 {
        out.push('.');
        extend_chars(&mut out, &ext_v);
    }
    string_of(&out)
}


/// The settings of the batch-rename window.
pub struct RenameSettings {
    /// Text to search for in each stem (nothing is replaced when empty).
    pub find: String,
    /// Text that replaces each occurrence of `find`.
    pub replace: String,
    /// Text put before each stem.
    pub prefix: String,
    /// Text put after each stem.
    pub suffix: String,
    /// Whether the files get numbers.
    pub numbered: bool,
    /// The number of the first file.
    pub first_number: i32,
}

/// An optional text, or the empty text when there is none.
pub open spec fn or_empty(o: Option<Seq<char>>) -> Seq<char> {
    match o {
        Some(s) => s,
        None => Seq::empty(),
    }
}

/// The file name of a path, or empty.
pub open spec fn name_of(path: Seq<char>) -> Seq<char> {
    or_empty(spec_file_name(path))
}

/// The stem of the file name of a path, or empty.
pub open spec fn stem_of_path(path: Seq<char>) -> Seq<char> {
    match spec_file_name(path) {
        Some(n) => stem_of(n),
        None => Seq::empty(),
    }
}

/// The extension of the file name of a path, or empty.
pub open spec fn extension_of_path(path: Seq<char>) -> Seq<char> {
    match spec_file_name(path) {
        Some(n) => or_empty(extension_of(n)),
        None => Seq::empty(),
    }
}

/// The folder of a path, or empty.
pub open spec fn folder_of(path: Seq<char>) -> Seq<char> {
    or_empty(spec_parent(path))
}

/// Numbering stays within `i32` for every file of a batch of `count`.
pub open spec fn numbering_fits(s: RenameSettings, count: nat) -> bool {
    s.numbered ==> forall|i: usize| i < count ==> #[trigger] number_fits(s.first_number, i)
}

/// The new name of the file at `path`, the `index`-th of the batch.
pub open spec fn planned_name(path: Seq<char>, s: RenameSettings, index: usize) -> Seq<char> {
    new_name(
        stem_of_path(path),
        extension_of_path(path),
        s.find@,
        s.replace@,
        s.prefix@,
        s.suffix@,
        if s.numbered { Some(file_number(s.first_number, index)) } else { None },
    )
}

/// The preview line of a file: its current name, an arrow, its new name.
pub open spec fn preview_line(path: Seq<char>, s: RenameSettings, index: usize) -> Seq<char> {
    name_of(path) + " -> "@ + planned_name(path, s, index)
}

/// Where a file goes: its new name in its own folder.
pub open spec fn rename_target(path: Seq<char>, s: RenameSettings, index: usize) -> Seq<char> {
    spec_join(folder_of(path), planned_name(path, s, index))
}

fn opt_chars_or_empty(o: Option<String>) -> (r: String)
    ensures
        r@ == or_empty(opt_view(o)),
{
    match o {
        Some(s) => s,
        None => String::new(),
    }
}

/// The new name of the file at `path`, the `index`-th of the batch.
pub fn planned_name_of(path: &str, s: &RenameSettings, index: usize) -> (r: String)
    requires
        s.numbered ==> number_fits(s.first_number, index),
    ensures
        r@ == planned_name(path@, *s, index),
{
    let stem = opt_chars_or_empty(file_stem(path));
    let ext = opt_chars_or_empty(extension(path));
    assert(stem@ == stem_of_path(path@));
    assert(ext@ == extension_of_path(path@));
    compute_new_name(
        stem.as_str(),
        ext.as_str(),
        s.find.as_str(),
        s.replace.as_str(),
        s.prefix.as_str(),
        s.suffix.as_str(),
        s.numbered,
        s.first_number,
        index,
    )
}

/// The preview of a batch: for each file, in order, its current name and
/// its new name.
pub fn preview_lines(paths: &Vec<String>, s: &RenameSettings) -> (lines: Vec<String>)
    requires
        numbering_fits(*s, paths.len() as nat),
    ensures
        lines.len() == paths.len(),
        forall|i: int|
            0 <= i < paths.len() ==> #[trigger] lines@[i]@ == preview_line(paths@[i]@, *s, i as usize),
{
    let mut lines: Vec<String> = Vec::new();
    let mut i: usize = 0;
    while i < paths.len()
        invariant
            i <= paths.len(),
            numbering_fits(*s, paths.len() as nat),
            lines.len() == i,
            forall|k: int|
                0 <= k < i ==> #[trigger] lines@[k]@ == preview_line(paths@[k]@, *s, k as usize),
        decreases paths.len() - i,
    {
        let path = paths[i].as_str();
        assert(s.numbered ==> number_fits(s.first_number, i));
        let name = opt_chars_or_empty(file_name(path));
        let mut v = chars_of(name.as_str());
        extend_chars(&mut v, &chars_of(" -> "));
        extend_chars(&mut v, &chars_of(planned_name_of(path, s, i).as_str()));
        lines.push(string_of(&v));
        i += 1;
    }
    lines
}

/// Where each file of the batch is renamed to, in order.
pub fn rename_targets(paths: &Vec<String>, s: &RenameSettings) -> (targets: Vec<String>)
    requires
        numbering_fits(*s, paths.len() as nat),
    ensures
        targets.len() == paths.len(),
        forall|i: int|
            0 <= i < paths.len() ==> #[trigger] targets@[i]@ == rename_target(
                paths@[i]@,
                *s,
                i as usize,
            ),
{
    let mut targets: Vec<String> = Vec::new();
    let mut i: usize = 0;
    while i < paths.len()
        invariant
            i <= paths.len(),
            numbering_fits(*s, paths.len() as nat),
            targets.len() == i,
            forall|k: int|
                0 <= k < i ==> #[trigger] targets@[k]@ == rename_target(paths@[k]@, *s, k as usize),
        decreases paths.len() - i,
    {
        let path = paths[i].as_str();
        assert(s.numbered ==> number_fits(s.first_number, i));
        let folder = opt_chars_or_empty(parent(path));
        let name = planned_name_of(path, s, i);
        targets.push(join(folder.as_str(), name.as_str()));
        i += 1;
    }
    targets
}


/// The number of the first file as typed in the window: the text read as
/// an `i32`, or 1 when it is not one.
pub open spec fn first_number_of(text: Seq<char>) -> int {
    match parse_i32(text) {
        Some(v) => v,
        None => 1,
    }
}

/// Reads the number of the first file from the window's text.
pub fn parse_first_number(text: &str) -> (n: i32)
    ensures
        n as int == first_number_of(text@),
{
    match parse_i32_str(text) {
        Some(v) => v,
        None => 1,
    }
}

/// The message after a batch: how many files were renamed, and how many
/// failed when any did.
pub open spec fn rename_summary(succeeded: nat, failed: nat) -> Seq<char> {
    if failed == 0 {
        "重新命名成功！共修改了 "@ + decimal_nat(succeeded) + " 個檔案。"@
    } else {
        "修改完成。成功："@ + decimal_nat(succeeded) + "，失敗："@ + decimal_nat(failed) + "。"@
    }
}

/// The message after a batch of renames.
pub fn rename_summary_message(succeeded: usize, failed: usize) -> (m: String)
    ensures
        m@ == rename_summary(succeeded as nat, failed as nat),
{
    if failed == 0 {
        let mut v = chars_of("重新命名成功！共修改了 ");
        extend_chars(&mut v, &decimal_u64(succeeded as u64));
        extend_chars(&mut v, &chars_of(" 個檔案。"));
        string_of(&v)
    } else {
        let mut v = chars_of("修改完成。成功：");
        extend_chars(&mut v, &decimal_u64(succeeded as u64));
        extend_chars(&mut v, &chars_of("，失敗："));
        extend_chars(&mut v, &decimal_u64(failed as u64));
        extend_chars(&mut v, &chars_of("。"));
        string_of(&v)
    }
}


/// Blank settings (nothing to find, no prefix, no suffix, no numbering)
/// leave every name as it is, except that a name ending in a dot loses
/// that dot (its extension is empty).
pub proof fn lemma_blank_settings_keep_names(path: Seq<char>, s: RenameSettings, index: usize)
    requires
        s.find@.len() == 0,
        s.prefix@.len() == 0,
        s.suffix@.len() == 0,
        !s.numbered,
        name_of(path).len() == 0 || name_of(path).last() != '.',
    ensures
        planned_name(path, s, index) == name_of(path),
{
    let stem = stem_of_path(path);
    assert(s.prefix@ + replace_all(stem, s.find@, s.replace@) + s.suffix@ =~= stem);
    match spec_file_name(path) {
        Some(n) => {
            lemma_last_dot(n);
            let d = last_dot(n);
            if d > 0 {
                let ext = n.skip(d + 1);
                assert(ext.len() > 0);
                assert(n.take(d) + seq!['.'] + ext =~= n);
            }
        },
        None => {},
    }
}


/// What the preview shows is what renaming does: a file whose new name is
/// a plain name ends up in its own folder under exactly the new name
/// shown.  The exceptions: a folder that names a server without a share,
/// and a verbatim folder that joining rewrites.
pub proof fn lemma_preview_matches_rename(path: Seq<char>, s: RenameSettings, index: usize)
    requires
        is_plain_name(planned_name(path, s, index)),
        !is_bare_server(folder_of(path)),
        is_verbatim(path) && spec_parent(path) is Some ==> folder_of(path) == verbatim_rebuilt(
            folder_of(path),
        ),
    ensures
        folder_of(rename_target(path, s, index)) == folder_of(path),
        spec_file_name(rename_target(path, s, index)) == Some(planned_name(path, s, index)),
{
    lemma_rename_keeps_folder(path, planned_name(path, s, index));
}

/// The name the preview shows is the name the file gets: a file whose new
/// name is a plain name is renamed to a path whose file name is exactly
/// that name, unless its folder names a server without a share.
pub proof fn lemma_preview_name_is_new_name(path: Seq<char>, s: RenameSettings, index: usize)
    requires
        is_plain_name(planned_name(path, s, index)),
        !is_bare_server(folder_of(path)),
    ensures
        spec_file_name(rename_target(path, s, index)) == Some(planned_name(path, s, index)),
{
    lemma_rename_keeps_name(path, planned_name(path, s, index));
}

/// Numbering tells files apart: with everything else the same, two
/// different numbers give two different new names.
pub proof fn lemma_numbers_keep_names_apart(
    stem: Seq<char>,
    ext: Seq<char>,
    find: Seq<char>,
    replace: Seq<char>,
    prefix: Seq<char>,
    suffix: Seq<char>,
    x: int,
    y: int,
)
    requires
        x != y,
    ensures
        new_name(stem, ext, find, replace, prefix, suffix, Some(x)) != new_name(
            stem,
            ext,
            find,
            replace,
            prefix,
            suffix,
            Some(y),
        ),
{
    let head = prefix + replace_all(stem, find, replace) + suffix + seq!['_'];
    let tail: Seq<char> = if ext.len() == 0 { seq![] } else { seq!['.'] + ext };
    let wx = decimal_width2(x);
    let wy = decimal_width2(y);
    let nx = new_name(stem, ext, find, replace, prefix, suffix, Some(x));
    let ny = new_name(stem, ext, find, replace, prefix, suffix, Some(y));
    assert(nx =~= head + wx + tail);
    assert(ny =~= head + wy + tail);
    if nx == ny {
        assert(wx.len() == wy.len());
        assert(wx =~= nx.subrange(head.len() as int, (head.len() + wx.len()) as int));
        assert(wy =~= ny.subrange(head.len() as int, (head.len() + wy.len()) as int));
        lemma_decimal_width2_injective(x, y);
    }
}

/// Two files of a numbered batch whose positions give different numbers
/// (any two positions up to `i32::MAX`) get different new names when
/// their stems and extensions are the same.
pub proof fn lemma_batch_names_apart(
    stem: Seq<char>,
    ext: Seq<char>,
    find: Seq<char>,
    replace: Seq<char>,
    prefix: Seq<char>,
    suffix: Seq<char>,
    num_start: i32,
    i: usize,
    j: usize,
)
    requires
        i as i32 != j as i32,
    ensures
        file_number(num_start, i) != file_number(num_start, j),
        new_name(stem, ext, find, replace, prefix, suffix, Some(file_number(num_start, i)))
            != new_name(stem, ext, find, replace, prefix, suffix, Some(file_number(num_start, j))),
{
    lemma_numbers_keep_names_apart(
        stem,
        ext,
        find,
        replace,
        prefix,
        suffix,
        file_number(num_start, i),
        file_number(num_start, j),
    );
}


/// Whether `pat` occurs somewhere in `s`.
pub open spec fn occurs_in(s: Seq<char>, pat: Seq<char>) -> bool {
    exists|i: int| 0 <= i && i + pat.len() <= s.len() && #[trigger] s.subrange(i, i + pat.len()) == pat
}

/// Replacing a text that does not occur changes nothing.
pub proof fn lemma_replace_absent(s: Seq<char>, pat: Seq<char>, rep: Seq<char>)
    requires
        !occurs_in(s, pat),
    ensures
        replace_all(s, pat, rep) == s,
    decreases s.len(),
{
    if pat.len() > 0 && s.len() >= pat.len() {
        assert(s.take(pat.len() as int) != pat) by {
            if s.take(pat.len() as int) == pat {
                assert(s.subrange(0int, 0int + pat.len()) =~= s.take(pat.len() as int));
            }
        }
        let t = s.skip(1);
        assert(!occurs_in(t, pat)) by {
            if occurs_in(t, pat) {
                let i = choose|i: int| 0 <= i && i + pat.len() <= t.len() && #[trigger] t.subrange(
                    i,
                    i + pat.len(),
                ) == pat;
                assert(s.subrange(i + 1, i + 1 + pat.len()) =~= t.subrange(i, i + pat.len()));
            }
        }
        lemma_replace_absent(t, pat, rep);
        assert(seq![s[0]] + t =~= s);
    }
}

/// Replacing a text by itself changes nothing.
pub proof fn lemma_replace_by_itself(s: Seq<char>, pat: Seq<char>)
    ensures
        replace_all(s, pat, pat) == s,
    decreases s.len(),
{
    if pat.len() > 0 && s.len() >= pat.len() {
        if s.take(pat.len() as int) == pat {
            lemma_replace_by_itself(s.skip(pat.len() as int), pat);
            assert(pat + s.skip(pat.len() as int) =~= s);
        } else {
            lemma_replace_by_itself(s.skip(1), pat);
            assert(seq![s[0]] + s.skip(1) =~= s);
        }
    }
}

/// The prefix is written as it is, whatever is searched for: a new name
/// is the prefix followed by the new name without prefix.
pub proof fn lemma_prefix_written_as_is(
    stem: Seq<char>,
    ext: Seq<char>,
    find: Seq<char>,
    replace: Seq<char>,
    prefix: Seq<char>,
    suffix: Seq<char>,
    number: Option<int>,
)
    ensures
        new_name(stem, ext, find, replace, prefix, suffix, number) == prefix + new_name(
            stem,
            ext,
            find,
            replace,
            Seq::empty(),
            suffix,
            number,
        ),
        new_name(stem, ext, find, replace, prefix, suffix, number).take(prefix.len() as int)
            == prefix,
{
    let r = replace_all(stem, find, replace);
    assert(prefix + r + suffix =~= prefix + (Seq::<char>::empty() + r + suffix));
    let a = new_name(stem, ext, find, replace, prefix, suffix, number);
    let b = new_name(stem, ext, find, replace, Seq::empty(), suffix, number);
    match number {
        Some(n) => {
            assert(prefix + r + suffix + seq!['_'] + decimal_width2(n) =~= prefix + (
            Seq::<char>::empty() + r + suffix + seq!['_'] + decimal_width2(n)));
        },
        None => {},
    }
    if ext.len() > 0 {
        assert(a =~= prefix + b);
    } else {
        assert(a =~= prefix + b);
    }
    assert((prefix + b).take(prefix.len() as int) =~= prefix);
}

/// The suffix is written as it is, whatever is searched for: without
/// number and extension, a new name is the new name without suffix
/// followed by the suffix.
pub proof fn lemma_suffix_written_as_is(
    stem: Seq<char>,
    find: Seq<char>,
    replace: Seq<char>,
    prefix: Seq<char>,
    suffix: Seq<char>,
)
    ensures
        new_name(stem, Seq::empty(), find, replace, prefix, suffix, None) == new_name(
            stem,
            Seq::empty(),
            find,
            replace,
            prefix,
            Seq::empty(),
            None,
        ) + suffix,
{
    let r = replace_all(stem, find, replace);
    assert(prefix + r + suffix =~= (prefix + r + Seq::<char>::empty()) + suffix);
}

/// Only the stem is searched: when the text to find does not occur in the
/// stem, the new name is the prefix, the stem and the suffix as they are
/// (then the number and the extension), even when the prefix or the
/// suffix contains that text.
pub proof fn lemma_only_the_stem_is_searched(
    stem: Seq<char>,
    ext: Seq<char>,
    find: Seq<char>,
    replace: Seq<char>,
    prefix: Seq<char>,
    suffix: Seq<char>,
)
    requires
        !occurs_in(stem, find),
    ensures
        new_name(stem, ext, find, replace, prefix, suffix, None) == new_name(
            stem,
            ext,
            Seq::empty(),
            Seq::empty(),
            prefix,
            suffix,
            None,
        ),
        new_name(stem, Seq::empty(), find, replace, prefix, suffix, None) == prefix + stem + suffix,
{
    lemma_replace_absent(stem, find, replace);
}
} // verus!
