//! Paths: the file that a request target names under the document root, and
//! the extension of a file name.
//!
//! Paths are plain text with `/` between their segments. Nothing here looks
//! at a file system.

use crate::text::{chars_of, same_text};
use vstd::prelude::*;
use vstd::string::{StrSliceExecFns, StringExecFns};

verus! {

/// The index just after the last `c` among the characters of `s` from
/// `start` up to `end`, or `start` if `c` is not among them.
pub open spec fn after_last(s: Seq<char>, c: char, start: int, end: int) -> int
    decreases end - start,
{
    if 0 <= start < end <= s.len() && s[end - 1] != c {
        after_last(s, c, start, end - 1)
    } else {
        end
    }
}

/// The first index at or after `from` that holds no `/`, or the length of
/// `s`.
pub open spec fn slashes_end(s: Seq<char>, from: int) -> int
    decreases s.len() - from,
{
    if 0 <= from < s.len() && s[from] == '/' {
        slashes_end(s, from + 1)
    } else {
        from
    }
}

/// `s` without the `/` characters that it begins with.
pub open spec fn strip_slashes(s: Seq<char>) -> Seq<char> {
    s.subrange(slashes_end(s, 0), s.len() as int)
}

/// The file that a request target names under `docroot`: `index.html` for
/// the target `/`, else the target without its leading slashes. The target
/// is not normalised in any other way.
pub open spec fn resolved_path(docroot: Seq<char>, target: Seq<char>) -> Seq<char> {
    if target == "/"@ {
        docroot + "/index.html"@
    } else {
        docroot + "/"@ + strip_slashes(target)
    }
}

/// The extension of the file that `path` names: what follows the last `.` of
/// the last segment of the path, provided that something follows it and that
/// the segment does not begin with it.
pub open spec fn extension(path: Seq<char>) -> Option<Seq<char>> {
    let len = path.len() as int;
    let name = after_last(path, '/', 0, len);
    let dot = after_last(path, '.', name, len);
    if name + 1 < dot < len {
        Some(path.subrange(dot, len))
    } else {
        None
    }
}

/// The file that `target` names under `docroot`.
pub fn resolve(docroot: &str, target: &str) -> (path: String)
    ensures
        path@ == resolved_path(docroot@, target@),
{
    let mut path = docroot.to_owned();
    if same_text(target, "/") {
        path.append("/index.html");
    } else {
        let chars = chars_of(target);
        let mut i: usize = 0;
        while i < chars.len() && chars[i] == '/'
            invariant
                i <= chars@.len(),
                slashes_end(chars@, 0) == slashes_end(chars@, i as int),
            decreases chars@.len() - i,
        {
            i += 1;
        }
        path.append("/");
        path.append(target.substring_char(i, chars.len()));
    }
    path
}

/// Scans `s` backwards from `end` down to `start` for the last `c`.
fn scan_back(s: &Vec<char>, c: char, start: usize, end: usize) -> (after: usize)
    requires
        start <= end <= s@.len(),
    ensures
        after == after_last(s@, c, start as int, end as int),
        start <= after <= end,
{
    let mut i: usize = end;
    while start < i && s[i - 1] != c
        invariant
            start <= i <= end <= s@.len(),
            after_last(s@, c, start as int, end as int) == after_last(s@, c, start as int, i as int),
        decreases i - start,
    {
        i -= 1;
    }
    i
}

/// The extension of the file that `path` names.
pub fn extension_of(path: &str) -> (found: Option<&str>)
    ensures
        match found {
            Some(e) => extension(path@) == Some(e@),
            None => extension(path@).is_none(),
        },
{
    let chars = chars_of(path);
    let len = chars.len();
    let name = scan_back(&chars, '/', 0, len);
    let dot = scan_back(&chars, '.', name, len);
    if dot - name > 1 && dot < len {
        Some(path.substring_char(dot, len))
    } else {
        None
    }
}

/// `slashes_end` skips a run of slashes that something else, or nothing,
/// follows.
proof fn lemma_slashes_run(s: Seq<char>, from: int, to: int)
    requires
        0 <= from <= to <= s.len(),
        forall|i: int| from <= i < to ==> #[trigger] s[i] == '/',
        to == s.len() || s[to] != '/',
    ensures
        slashes_end(s, from) == to,
    decreases to - from,
{
    if from < to {
        lemma_slashes_run(s, from + 1, to);
    }
}

/// The target `/` names the index page of the document root.
pub proof fn lemma_root_is_the_index(docroot: Seq<char>)
    ensures
        resolved_path(docroot, "/"@) == docroot + "/index.html"@,
{
}

/// Every target but `/` names the file under the document root that the
/// target spells once its leading slashes are gone: however many slashes it
/// begins with, they are replaced by the one that follows the document root,
/// and what comes after them is kept as it is.
pub proof fn lemma_leading_slashes_are_stripped(
    docroot: Seq<char>,
    slashes: Seq<char>,
    rest: Seq<char>,
)
    requires
        forall|i: int| 0 <= i < slashes.len() ==> #[trigger] slashes[i] == '/',
        rest.len() == 0 || rest[0] != '/',
        slashes + rest != "/"@,
    ensures
        resolved_path(docroot, slashes + rest) == docroot + "/"@ + rest,
{
    let target = slashes + rest;
    lemma_slashes_run(target, 0, slashes.len() as int);
    assert(strip_slashes(target) == rest);
}

/// `after_last` finds the last `c` from `start` up to `end`, given where it
/// is.
proof fn lemma_after_last(s: Seq<char>, c: char, start: int, end: int, after: int)
    requires
        0 <= start <= after <= end <= s.len(),
        forall|i: int| after <= i < end ==> #[trigger] s[i] != c,
        after == start || s[after - 1] == c,
    ensures
        after_last(s, c, start, end) == after,
    decreases end - after,
{
    if after < end {
        lemma_after_last(s, c, start, end - 1, after);
    }
}

/// A file name that is a stem, a `.` and an extension has that extension,
/// whatever directory it stands in and whatever other dots the stem holds.
pub proof fn lemma_extension_found(dir: Seq<char>, stem: Seq<char>, ext: Seq<char>)
    requires
        dir.len() == 0 || dir.last() == '/',
        stem.len() > 0,
        ext.len() > 0,
        forall|i: int| 0 <= i < stem.len() ==> #[trigger] stem[i] != '/',
        forall|i: int| 0 <= i < ext.len() ==> #[trigger] ext[i] != '/' && ext[i] != '.',
    ensures
        extension(dir + stem + seq!['.'] + ext) == Some(ext),
{
    let path = dir + stem + seq!['.'] + ext;
    let len = path.len() as int;
    let name = dir.len() as int;
    let dot = name + stem.len() + 1;
    assert forall|i: int| name <= i < len implies #[trigger] path[i] != '/' by {
        if i < name + stem.len() {
            assert(path[i] == stem[i - name]);
        } else if i >= dot {
            assert(path[i] == ext[i - dot]);
        }
    }
    assert forall|i: int| dot <= i < len implies #[trigger] path[i] != '.' by {
        assert(path[i] == ext[i - dot]);
    }
    lemma_after_last(path, '/', 0, len, name);
    lemma_after_last(path, '.', name, len, dot);
    assert(path.subrange(dot, len) == ext);
}

/// A file name without a `.` has no extension, and neither has one whose
/// only `.` is its first character.
pub proof fn lemma_extension_absent(dir: Seq<char>, name: Seq<char>)
    requires
        dir.len() == 0 || dir.last() == '/',
        forall|i: int| 0 <= i < name.len() ==> #[trigger] name[i] != '/',
        forall|i: int| 1 <= i < name.len() ==> #[trigger] name[i] != '.',
    ensures
        extension(dir + name).is_none(),
{
    let path = dir + name;
    let len = path.len() as int;
    let start = dir.len() as int;
    assert forall|i: int| start <= i < len implies #[trigger] path[i] != '/' by {
        assert(path[i] == name[i - start]);
    }
    assert forall|i: int| start + 1 <= i < len implies #[trigger] path[i] != '.' by {
        assert(path[i] == name[i - start]);
    }
    lemma_after_last(path, '/', 0, len, start);
    if name.len() > 0 && name[0] == '.' {
        assert(path[start] == name[0]);
        lemma_after_last(path, '.', start, len, start + 1);
    } else {
        assert forall|i: int| start <= i < len implies #[trigger] path[i] != '.' by {
            assert(path[i] == name[i - start]);
        }
        lemma_after_last(path, '.', start, len, start);
    }
}

} // verus!
