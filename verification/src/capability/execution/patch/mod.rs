//! Patch execution: reading the file headers of an `apply_patch` patch,
//! sorting the paths it touches into added, modified and deleted, and
//! refusing any path that escapes the workspace root.
use vstd::prelude::*;
use crate::codec::{
    chars_equal, insert_sorted_unique, line_bounds, split_lines, split_on, string_views,
    strictly_sorted, trim, trim_bounds, trim_end, trim_end_bound,
};
use crate::text::{
    chars_of, chars_start_with, debug_quoted, debug_text, owned, push_decimal, push_str,
    spec_decimal, str_eq, string_from_chars,
};
use vstd::string::StringSliceAdditionalSpecFns;

verus! {

pub const APPLY_PATCH_TOOL: &'static str = "apply_patch";

/// Categorized paths affected by a patch application.
#[derive(Clone, Debug, PartialEq, Eq)]
pub struct AffectedPaths {
    pub added: Vec<String>,
    pub modified: Vec<String>,
    pub deleted: Vec<String>,
}

impl Default for AffectedPaths {
    fn default() -> (r: Self)
        ensures
            r.added@.len() == 0,
            r.modified@.len() == 0,
            r.deleted@.len() == 0,
    {
        AffectedPaths { added: Vec::new(), modified: Vec::new(), deleted: Vec::new() }
    }
}

impl AffectedPaths {
    /// Total number of affected paths across all categories.
    pub fn total(&self) -> (r: usize)
        requires
            self.added@.len() + self.modified@.len() + self.deleted@.len() <= usize::MAX,
        ensures
            r == self.added@.len() + self.modified@.len() + self.deleted@.len(),
    {
        self.added.len() + self.modified.len() + self.deleted.len()
    }

    /// True when no paths were recorded.
    pub fn is_empty(&self) -> (r: bool)
        ensures
            r == (self.added@.len() == 0 && self.modified@.len() == 0 && self.deleted@.len()
                == 0),
    {
        self.added.len() == 0 && self.modified.len() == 0 && self.deleted.len() == 0
    }
}

/// A path stays inside the workspace when it is not absolute and none of
/// its `/`-separated components is `..` (Unix path rules).
pub open spec fn spec_is_workspace_safe_path(p: Seq<char>) -> bool {
    &&& !(p.len() > 0 && p[0] == '/')
    &&& forall|i: int|
        0 <= i < split_on(p, '/').len() ==> #[trigger] split_on(p, '/')[i] != seq!['.', '.']
}

/// Reject paths that escape the workspace root: absolute paths or `..`.
pub fn is_workspace_safe_path(path: &str) -> (r: bool)
    ensures
        r == spec_is_workspace_safe_path(path@),
{
    let chars = chars_of(path);
    let ghost s = chars@;
    if chars.len() > 0 && chars[0] == '/' {
        return false;
    }
    let mut start: usize = 0;
    let mut k: usize = 0;
    let ghost mut gp: Seq<Seq<char>> = Seq::empty();
    assert(s.subrange(0, 0) =~= Seq::<char>::empty());
    assert(s.take(0) =~= Seq::<char>::empty());
    assert(split_on(s.take(0), '/') =~~= gp.push(s.subrange(0, 0)));
    while k < chars.len()
        invariant
            s == chars@,
            s == path@,
            start <= k <= s.len(),
            split_on(s.take(k as int), '/') == gp.push(s.subrange(start as int, k as int)),
            forall|i: int| 0 <= i < gp.len() ==> #[trigger] gp[i] != seq!['.', '.'],
        decreases s.len() - k,
    {
        assert(s.take(k + 1).drop_last() =~= s.take(k as int));
        assert(s.take(k + 1).last() == s[k as int]);
        if chars[k] == '/' {
            let ghost seg = s.subrange(start as int, k as int);
            if k - start == 2 && chars[start] == '.' && chars[start + 1] == '.' {
                assert(seg =~= seq!['.', '.']);
                assert(s.take(k + 1) =~= s.take(k + 1));
                let ghost lines = split_on(s.take(k + 1), '/');
                assert(lines == gp.push(seg).push(Seq::<char>::empty()));
                assert(split_on(s, '/')[gp.len() as int] == seg) by {
                    lemma_split_on_prefix(s, k + 1, '/');
                    assert(lines[gp.len() as int] == seg);
                }
                assert(0 <= gp.len() < split_on(s, '/').len()) by {
                    lemma_split_on_prefix(s, k + 1, '/');
                }
                assert(split_on(s, '/')[gp.len() as int] == seq!['.', '.']);
                return false;
            }
            assert(seg != seq!['.', '.']) by {
                if seg == seq!['.', '.'] {
                    assert(seg.len() == 2);
                    assert(seg[0] == s[start as int]);
                    assert(seg[1] == s[start + 1]);
                }
            }
            proof {
                gp = gp.push(seg);
            }
            start = k + 1;
            assert(s.subrange(start as int, k + 1) =~= Seq::<char>::empty());
            assert(split_on(s.take(k + 1), '/') =~~= gp.push(s.subrange(start as int, k + 1)));
        } else {
            assert(s.subrange(start as int, k + 1) =~= s.subrange(start as int, k as int).push(
                s[k as int],
            ));
            let ghost p = gp.push(s.subrange(start as int, k as int));
            assert(p.last() == s.subrange(start as int, k as int));
            assert(split_on(s.take(k + 1), '/') == p.update(
                p.len() - 1,
                p.last().push(s[k as int]),
            ));
            assert(split_on(s.take(k + 1), '/') =~~= gp.push(s.subrange(start as int, k + 1)));
        }
        k = k + 1;
    }
    assert(s.take(k as int) =~= s);
    let ghost seg = s.subrange(start as int, k as int);
    if k - start == 2 && chars[start] == '.' && chars[start + 1] == '.' {
        assert(seg =~= seq!['.', '.']);
        assert(split_on(s, '/')[gp.len() as int] == seg);
        return false;
    }
    assert(seg != seq!['.', '.']) by {
        if seg == seq!['.', '.'] {
            assert(seg.len() == 2);
            assert(seg[0] == s[start as int]);
            assert(seg[1] == s[start + 1]);
        }
    }
    let ghost all = split_on(s, '/');
    assert(forall|i: int| 0 <= i < all.len() ==> #[trigger] all[i] != seq!['.', '.']) by {
        assert forall|i: int| 0 <= i < all.len() implies #[trigger] all[i] != seq!['.', '.'] by {
            if i < gp.len() {
                assert(all[i] == gp[i]);
            } else {
                assert(all[i] == seg);
            }
        }
    }
    true
}

/// The pieces of a prefix are those of the whole, up to the last one.
proof fn lemma_split_on_prefix(s: Seq<char>, n: int, sep: char)
    requires
        0 <= n <= s.len(),
    ensures
        split_on(s.take(n), sep).len() <= split_on(s, sep).len(),
        forall|i: int|
            0 <= i < split_on(s.take(n), sep).len() - 1 ==> #[trigger] split_on(s, sep)[i]
                == split_on(s.take(n), sep)[i],
    decreases s.len() - n,
{
    if n < s.len() {
        lemma_split_on_prefix(s, n + 1, sep);
        assert(s.take(n + 1).drop_last() =~= s.take(n));
        lemma_split_on_len(s.take(n), sep);
    } else {
        assert(s.take(n) =~= s);
    }
}

proof fn lemma_split_on_len(s: Seq<char>, sep: char)
    ensures
        split_on(s, sep).len() >= 1,
    decreases s.len(),
{
    if s.len() > 0 {
        lemma_split_on_len(s.drop_last(), sep);
    }
}


pub open spec fn starts_with(t: Seq<char>, p: Seq<char>) -> bool {
    t.len() >= p.len() && t.subrange(0, p.len() as int) == p
}

/// What a patch line (trimmed at its end) is: 1 the begin marker, 2 the end
/// marker, 3 an added file, 4 a deleted file, 5 an updated file, 6 a move
/// target, 0 anything else.
pub open spec fn patch_line_op(t: Seq<char>) -> int {
    if t == "*** Begin Patch"@ {
        1
    } else if t == "*** End Patch"@ {
        2
    } else if starts_with(t, "*** Add File: "@) {
        3
    } else if starts_with(t, "*** Delete File: "@) {
        4
    } else if starts_with(t, "*** Update File: "@) {
        5
    } else if starts_with(t, "*** Move to: "@) {
        6
    } else {
        0
    }
}

pub open spec fn patch_op_prefix(op: int) -> Seq<char> {
    if op == 3 {
        "*** Add File: "@
    } else if op == 4 {
        "*** Delete File: "@
    } else if op == 5 {
        "*** Update File: "@
    } else {
        "*** Move to: "@
    }
}

/// The path a file header names, trimmed.
pub open spec fn patch_line_path(t: Seq<char>) -> Seq<char> {
    trim(t.subrange(patch_op_prefix(patch_line_op(t)).len() as int, t.len() as int))
}

/// The scan of a patch's lines: whether the begin and end markers were seen,
/// the added, modified and deleted paths, and the first path that escapes
/// the workspace, after which nothing more is read.
pub open spec fn patch_scan(lines: Seq<Seq<char>>) -> (
    bool,
    bool,
    Set<Seq<char>>,
    Set<Seq<char>>,
    Set<Seq<char>>,
    Option<Seq<char>>,
)
    decreases lines.len(),
{
    if lines.len() == 0 {
        (false, false, Set::empty(), Set::empty(), Set::empty(), None)
    } else {
        let st = patch_scan(lines.drop_last());
        let t = trim_end(lines.last());
        let op = patch_line_op(t);
        let p = patch_line_path(t);
        if st.5 is Some {
            st
        } else if op == 1 {
            (true, st.1, st.2, st.3, st.4, None)
        } else if op == 2 {
            (st.0, true, st.2, st.3, st.4, None)
        } else if op >= 3 && !spec_is_workspace_safe_path(p) {
            (st.0, st.1, st.2, st.3, st.4, Some(p))
        } else if op == 3 {
            (st.0, st.1, st.2.insert(p), st.3, st.4, None)
        } else if op == 4 {
            (st.0, st.1, st.2, st.3, st.4.insert(p), None)
        } else if op == 5 || op == 6 {
            (st.0, st.1, st.2, st.3.insert(p), st.4, None)
        } else {
            st
        }
    }
}

pub open spec fn escapes_message(p: Seq<char>) -> Seq<char> {
    p + " escapes workspace root"@
}

/// The added, modified and deleted paths of a patch, or why it is refused.
pub open spec fn spec_categorize_patch_paths(text: Seq<char>) -> Result<
    (Set<Seq<char>>, Set<Seq<char>>, Set<Seq<char>>),
    Seq<char>,
> {
    let st = patch_scan(split_lines(text));
    match st.5 {
        Some(p) => Err(escapes_message(p)),
        None => if !st.0 || !st.1 {
            Err("patch must use apply_patch format with begin and end markers"@)
        } else if st.2.is_empty() && st.3.is_empty() && st.4.is_empty() {
            Err("no file patches found"@)
        } else {
            Ok((st.2, st.3, st.4))
        },
    }
}

/// The header kind of `v[lo..hi]`, a line already trimmed at its end.
fn line_op(v: &Vec<char>, lo: usize, hi: usize) -> (r: (u8, usize))
    requires
        lo <= hi <= v@.len(),
    ensures
        r.0 as int == patch_line_op(v@.subrange(lo as int, hi as int)),
        r.0 >= 3 ==> r.1 as int == lo + patch_op_prefix(r.0 as int).len() && r.1 <= hi,
{
    let ghost t = v@.subrange(lo as int, hi as int);
    if chars_equal(v, lo, hi, "*** Begin Patch") {
        return (1, 0);
    }
    if chars_equal(v, lo, hi, "*** End Patch") {
        return (2, 0);
    }
    let prefixes = ["*** Add File: ", "*** Delete File: ", "*** Update File: ", "*** Move to: "];
    let mut k: usize = 0;
    while k < 4
        invariant
            k <= 4,
            lo <= hi <= v@.len(),
            t == v@.subrange(lo as int, hi as int),
            prefixes@ == seq![
                "*** Add File: ",
                "*** Delete File: ",
                "*** Update File: ",
                "*** Move to: ",
            ],
            t != "*** Begin Patch"@,
            t != "*** End Patch"@,
            forall|j: int| 0 <= j < k ==> !starts_with(t, (#[trigger] prefixes@[j])@),
        decreases 4 - k,
    {
        let prefix = prefixes[k];
        if hi - lo >= prefix.unicode_len() && chars_start_with(v, lo, prefix) {
            assert(t.subrange(0, prefix@.len() as int) =~= v@.subrange(
                lo as int,
                lo + prefix@.len(),
            ));
            assert(starts_with(t, prefix@));
            return ((k + 3) as u8, lo + prefix.unicode_len());
        }
        proof {
            if starts_with(t, prefix@) {
                assert(t.subrange(0, prefix@.len() as int) =~= v@.subrange(
                    lo as int,
                    lo + prefix@.len(),
                ));
            }
        }
        k = k + 1;
    }
    assert(!starts_with(t, prefixes@[0]@));
    assert(!starts_with(t, prefixes@[1]@));
    assert(!starts_with(t, prefixes@[2]@));
    assert(!starts_with(t, prefixes@[3]@));
    (0, 0)
}

fn set_of_strings_is_empty(v: &Vec<String>) -> (r: bool)
    ensures
        r == string_views(v@).to_set().is_empty(),
{
    if v.len() == 0 {
        assert(string_views(v@).to_set() =~= Set::<Seq<char>>::empty());
        true
    } else {
        assert(string_views(v@).to_set().contains(string_views(v@)[0]));
        false
    }
}

/// Parse a patch string and categorize affected paths as added, modified,
/// or deleted: each list sorted and without repeats.
pub fn categorize_patch_paths(patch_text: &str) -> (r: Result<AffectedPaths, String>)
    ensures
        match (r, spec_categorize_patch_paths(patch_text@)) {
            (Ok(a), Ok((added, modified, deleted))) => {
                &&& strictly_sorted(string_views(a.added@))
                &&& strictly_sorted(string_views(a.modified@))
                &&& strictly_sorted(string_views(a.deleted@))
                &&& string_views(a.added@).to_set() == added
                &&& string_views(a.modified@).to_set() == modified
                &&& string_views(a.deleted@).to_set() == deleted
            },
            (Err(e), Err(m)) => e@ == m,
            _ => false,
        },
{
    let chars = chars_of(patch_text);
    let bounds = line_bounds(&chars);
    let ghost lines = split_lines(chars@);
    let mut added: Vec<String> = Vec::new();
    let mut modified: Vec<String> = Vec::new();
    let mut deleted: Vec<String> = Vec::new();
    let mut saw_begin = false;
    let mut saw_end = false;
    let mut i: usize = 0;
    assert(string_views(added@).to_set() =~= Set::<Seq<char>>::empty());
    assert(lines.take(0) =~= Seq::<Seq<char>>::empty());
    while i < bounds.len()
        invariant
            i <= bounds@.len(),
            bounds@.len() == lines.len(),
            lines == split_lines(chars@),
            chars@ == patch_text@,
            forall|k: int|
                0 <= k < bounds@.len() ==> {
                    &&& (#[trigger] bounds@[k]).0 <= bounds@[k].1 <= chars@.len()
                    &&& chars@.subrange(bounds@[k].0 as int, bounds@[k].1 as int) == lines[k]
                },
            patch_scan(lines.take(i as int)).5 is None,
            patch_scan(lines.take(i as int)).0 == saw_begin,
            patch_scan(lines.take(i as int)).1 == saw_end,
            patch_scan(lines.take(i as int)).2 == string_views(added@).to_set(),
            patch_scan(lines.take(i as int)).3 == string_views(modified@).to_set(),
            patch_scan(lines.take(i as int)).4 == string_views(deleted@).to_set(),
            strictly_sorted(string_views(added@)),
            strictly_sorted(string_views(modified@)),
            strictly_sorted(string_views(deleted@)),
        decreases bounds@.len() - i,
    {
        assert(lines.take(i + 1).drop_last() =~= lines.take(i as int));
        assert(lines.take(i + 1).last() == lines[i as int]);
        let (lo, hi0) = bounds[i];
        let hi = trim_end_bound(&chars, lo, hi0);
        let ghost t = chars@.subrange(lo as int, hi as int);
        assert(t == trim_end(lines[i as int]));
        let (op, at) = line_op(&chars, lo, hi);
        if op == 1 {
            saw_begin = true;
        } else if op == 2 {
            saw_end = true;
        } else if op >= 3 {
            let (plo, phi) = trim_bounds(&chars, at, hi);
            assert(chars@.subrange(at as int, hi as int) =~= t.subrange(
                patch_op_prefix(op as int).len() as int,
                t.len() as int,
            ));
            let path = string_from_chars(&chars, plo, phi);
            assert(path@ == patch_line_path(t));
            if !is_workspace_safe_path(path.as_str()) {
                let mut msg = path;
                push_str(&mut msg, " escapes workspace root");
                proof {
                    lemma_scan_stops(lines, i as int + 1);
                }
                return Err(msg);
            }
            if op == 3 {
                insert_sorted_unique(&mut added, path);
            } else if op == 4 {
                insert_sorted_unique(&mut deleted, path);
            } else {
                insert_sorted_unique(&mut modified, path);
            }
        }
        i = i + 1;
    }
    assert(lines.take(i as int) =~= lines);
    if !saw_begin || !saw_end {
        return Err(owned("patch must use apply_patch format with begin and end markers"));
    }
    if set_of_strings_is_empty(&added) && set_of_strings_is_empty(&modified)
        && set_of_strings_is_empty(&deleted) {
        return Err(owned("no file patches found"));
    }
    Ok(AffectedPaths { added, modified, deleted })
}

/// Once the scan has found an escaping path, the lines after it change nothing.
proof fn lemma_scan_stops(lines: Seq<Seq<char>>, n: int)
    requires
        0 <= n <= lines.len(),
        patch_scan(lines.take(n)).5 is Some,
    ensures
        patch_scan(lines) == patch_scan(lines.take(n)),
    decreases lines.len() - n,
{
    if n < lines.len() {
        assert(lines.take(n + 1).drop_last() =~= lines.take(n));
        lemma_scan_stops(lines, n + 1);
    } else {
        assert(lines.take(n) =~= lines);
    }
}


/// The scan of a patch's lines for the files it changes: whether the begin
/// and end markers were seen, and every path a file header names.
pub open spec fn file_scan(lines: Seq<Seq<char>>) -> (bool, bool, Set<Seq<char>>)
    decreases lines.len(),
{
    if lines.len() == 0 {
        (false, false, Set::empty())
    } else {
        let st = file_scan(lines.drop_last());
        let t = trim_end(lines.last());
        let op = patch_line_op(t);
        if op == 1 {
            (true, st.1, st.2)
        } else if op == 2 {
            (st.0, true, st.2)
        } else if op >= 3 {
            (st.0, st.1, st.2.insert(patch_line_path(t)))
        } else {
            st
        }
    }
}

/// The files a patch changes, or why it is not a patch.
pub open spec fn spec_changed_files(text: Seq<char>) -> Result<Set<Seq<char>>, Seq<char>> {
    let st = file_scan(split_lines(text));
    if !st.0 || !st.1 {
        Err("patch must use apply_patch format with begin and end markers"@)
    } else if st.2.is_empty() {
        Err("no file patches found"@)
    } else {
        Ok(st.2)
    }
}

/// Every file a patch adds, deletes, updates or moves to, sorted and
/// without repeats.
pub fn collect_apply_patch_changed_files(patch_text: &str) -> (r: Result<Vec<String>, String>)
    ensures
        match (r, spec_changed_files(patch_text@)) {
            (Ok(v), Ok(files)) => strictly_sorted(string_views(v@)) && string_views(v@).to_set()
                == files,
            (Err(e), Err(m)) => e@ == m,
            _ => false,
        },
{
    let chars = chars_of(patch_text);
    let bounds = line_bounds(&chars);
    let ghost lines = split_lines(chars@);
    let mut files: Vec<String> = Vec::new();
    let mut saw_begin = false;
    let mut saw_end = false;
    let mut i: usize = 0;
    assert(string_views(files@).to_set() =~= Set::<Seq<char>>::empty());
    assert(lines.take(0) =~= Seq::<Seq<char>>::empty());
    while i < bounds.len()
        invariant
            i <= bounds@.len(),
            bounds@.len() == lines.len(),
            lines == split_lines(chars@),
            chars@ == patch_text@,
            forall|k: int|
                0 <= k < bounds@.len() ==> {
                    &&& (#[trigger] bounds@[k]).0 <= bounds@[k].1 <= chars@.len()
                    &&& chars@.subrange(bounds@[k].0 as int, bounds@[k].1 as int) == lines[k]
                },
            file_scan(lines.take(i as int)).0 == saw_begin,
            file_scan(lines.take(i as int)).1 == saw_end,
            file_scan(lines.take(i as int)).2 == string_views(files@).to_set(),
            strictly_sorted(string_views(files@)),
        decreases bounds@.len() - i,
    {
        assert(lines.take(i + 1).drop_last() =~= lines.take(i as int));
        assert(lines.take(i + 1).last() == lines[i as int]);
        let (lo, hi0) = bounds[i];
        let hi = trim_end_bound(&chars, lo, hi0);
        let ghost t = chars@.subrange(lo as int, hi as int);
        assert(t == trim_end(lines[i as int]));
        let (op, at) = line_op(&chars, lo, hi);
        if op == 1 {
            saw_begin = true;
        } else if op == 2 {
            saw_end = true;
        } else if op >= 3 {
            let (plo, phi) = trim_bounds(&chars, at, hi);
            assert(chars@.subrange(at as int, hi as int) =~= t.subrange(
                patch_op_prefix(op as int).len() as int,
                t.len() as int,
            ));
            let path = string_from_chars(&chars, plo, phi);
            insert_sorted_unique(&mut files, path);
        }
        i = i + 1;
    }
    assert(lines.take(i as int) =~= lines);
    if !saw_begin || !saw_end {
        return Err(owned("patch must use apply_patch format with begin and end markers"));
    }
    if set_of_strings_is_empty(&files) {
        return Err(owned("no file patches found"));
    }
    Ok(files)
}

/// `Ok` for a path inside the workspace, else the message naming it.
pub fn validate_workspace_relative_path(path: &str) -> (r: Result<(), String>)
    ensures
        match r {
            Ok(()) => spec_is_workspace_safe_path(path@),
            Err(e) => !spec_is_workspace_safe_path(path@) && e@ == escapes_message(path@),
        },
{
    if is_workspace_safe_path(path) {
        Ok(())
    } else {
        let mut msg = owned(path);
        push_str(&mut msg, " escapes workspace root");
        Err(msg)
    }
}

/// The files a patch changes, each checked to stay inside the workspace:
/// the first escaping one in sorted order is the error.
pub fn collect_valid_changed_files(patch_text: &str) -> (r: Result<Vec<String>, String>)
    ensures
        match (r, spec_changed_files(patch_text@)) {
            (Ok(v), Ok(files)) => {
                &&& strictly_sorted(string_views(v@))
                &&& string_views(v@).to_set() == files
                &&& forall|p: Seq<char>| files.contains(p) ==> spec_is_workspace_safe_path(p)
            },
            (Err(e), Ok(files)) => exists|p: Seq<char>|
                {
                    &&& files.contains(p)
                    &&& !spec_is_workspace_safe_path(p)
                    &&& e@ == escapes_message(p)
                    &&& forall|q: Seq<char>|
                        files.contains(q) && crate::codec::lex_lt(q, p)
                            ==> spec_is_workspace_safe_path(q)
                },
            (Err(e), Err(m)) => e@ == m,
            _ => false,
        },
{
    let files = match collect_apply_patch_changed_files(patch_text) {
        Ok(f) => f,
        Err(e) => {
            return Err(e);
        },
    };
    let ghost views = string_views(files@);
    assert(spec_changed_files(patch_text@) == Ok::<Set<Seq<char>>, Seq<char>>(views.to_set()));
    let mut i: usize = 0;
    while i < files.len()
        invariant
            i <= files@.len(),
            spec_changed_files(patch_text@) == Ok::<Set<Seq<char>>, Seq<char>>(views.to_set()),
            views == string_views(files@),
            strictly_sorted(views),
            forall|k: int| 0 <= k < i ==> spec_is_workspace_safe_path(#[trigger] views[k]),
        decreases files@.len() - i,
    {
        assert(views[i as int] == files@[i as int]@);
        match validate_workspace_relative_path(files[i].as_str()) {
            Ok(()) => {},
            Err(e) => {
                let ghost p = views[i as int];
                assert forall|q: Seq<char>|
                    views.to_set().contains(q) && crate::codec::lex_lt(q, p) implies spec_is_workspace_safe_path(
                    q,
                ) by {
                    let k = choose|k: int| 0 <= k < views.len() && views[k] == q;
                    if k >= i {
                        if k == i {
                            crate::codec::lemma_lex_irreflexive(p);
                        } else {
                            crate::codec::lemma_lex_asymmetric(views[i as int], views[k]);
                        }
                    }
                }
                assert(views.to_set().contains(p));
                return Err(e);
            },
        }
        i = i + 1;
    }
    assert forall|p: Seq<char>| views.to_set().contains(p) implies spec_is_workspace_safe_path(p) by {
        let k = choose|k: int| 0 <= k < views.len() && views[k] == p;
        assert(spec_is_workspace_safe_path(views[k]));
    }
    Ok(files)
}


/// The arguments of an `apply_patch` call, as the caller's JSON gives them:
/// a field that is absent or of another type is `None`.
#[derive(Clone, Debug, PartialEq, Eq)]
pub struct ApplyPatchArgs {
    pub patch: Option<String>,
    pub max_bytes: Option<u64>,
    pub strip: Option<u64>,
    pub mode: Option<String>,
    pub cwd: Option<String>,
}

/// A checked `apply_patch` request.
#[derive(Clone, Debug, PartialEq, Eq)]
pub struct ApplyPatchRequest {
    pub patch_text: String,
    pub mode: String,
    pub do_apply: bool,
    pub cwd: String,
}

pub const DEFAULT_APPLY_PATCH_MAX_BYTES: u64 = 200_000;

pub open spec fn spec_patch_limit(max_bytes: Option<u64>) -> u64 {
    let m = match max_bytes {
        Some(m) => m,
        None => DEFAULT_APPLY_PATCH_MAX_BYTES,
    };
    if m < 1 {
        1
    } else {
        m
    }
}

pub open spec fn too_large_message(len: nat, limit: u64) -> Seq<char> {
    "patch is "@ + spec_decimal(len) + " bytes, larger than maxBytes="@ + spec_decimal(
        limit as nat,
    )
}

pub open spec fn invalid_mode_message(mode: Seq<char>) -> Seq<char> {
    "invalid mode "@ + debug_text(mode) + "; must be 'check' or 'apply'"@
}

/// The request an `apply_patch` call makes, or why it is refused: a patch
/// is required and, trimmed, must be non-empty and no longer in UTF-8 bytes
/// than `maxBytes` (200000 when absent, at least 1); `strip` must be 0;
/// `mode` is `check` (the default) or `apply`; `cwd` defaults to `.`.
pub open spec fn spec_parse_apply_patch_request(
    patch: Option<Seq<char>>,
    max_bytes: Option<u64>,
    strip: Option<u64>,
    mode: Option<Seq<char>>,
    cwd: Option<Seq<char>>,
) -> Result<(Seq<char>, Seq<char>, bool, Seq<char>), Seq<char>> {
    let text = trim(patch.unwrap_or(Seq::empty()));
    let bytes = vstd::utf8::encode_utf8(text).len() as usize;
    let limit = spec_patch_limit(max_bytes);
    let m = mode.unwrap_or("check"@);
    if patch is None {
        Err("missing 'patch' field"@)
    } else if text.len() == 0 {
        Err("patch is empty"@)
    } else if bytes > limit {
        Err(too_large_message(bytes as nat, limit))
    } else if strip.unwrap_or(0) != 0 {
        Err("strip is not supported by the apply_patch binary"@)
    } else if m != "apply"@ && m != "check"@ {
        Err(invalid_mode_message(m))
    } else {
        Ok((text, m, m == "apply"@, cwd.unwrap_or("."@)))
    }
}

pub open spec fn opt_view(s: Option<String>) -> Option<Seq<char>> {
    match s {
        Some(t) => Some(t@),
        None => None,
    }
}

/// Checks the arguments of an `apply_patch` call.
pub fn parse_apply_patch_request(args: &ApplyPatchArgs) -> (r: Result<ApplyPatchRequest, String>)
    ensures
        match (
            r,
            spec_parse_apply_patch_request(
                opt_view(args.patch),
                args.max_bytes,
                args.strip,
                opt_view(args.mode),
                opt_view(args.cwd),
            ),
        ) {
            (Ok(q), Ok((text, mode, do_apply, cwd))) => q.patch_text@ == text && q.mode@ == mode
                && q.do_apply == do_apply && q.cwd@ == cwd,
            (Err(e), Err(m)) => e@ == m,
            _ => false,
        },
{
    let patch = match &args.patch {
        Some(p) => p,
        None => {
            return Err(owned("missing 'patch' field"));
        },
    };
    let chars = chars_of(patch.as_str());
    let (lo, hi) = trim_bounds(&chars, 0, chars.len());
    assert(chars@.subrange(0, chars@.len() as int) =~= chars@);
    let text = string_from_chars(&chars, lo, hi);
    if lo == hi {
        return Err(owned("patch is empty"));
    }
    let limit: u64 = match args.max_bytes {
        Some(m) => if m < 1 {
            1
        } else {
            m
        },
        None => DEFAULT_APPLY_PATCH_MAX_BYTES,
    };
    let len = text.as_str().len();
    if len as u64 > limit {
        let mut msg = owned("patch is ");
        push_decimal(&mut msg, len as u64);
        push_str(&mut msg, " bytes, larger than maxBytes=");
        push_decimal(&mut msg, limit);
        assert(msg@ =~= too_large_message(len as nat, limit));
        return Err(msg);
    }
    let strip: u64 = match args.strip {
        Some(s) => s,
        None => 0,
    };
    if strip != 0 {
        return Err(owned("strip is not supported by the apply_patch binary"));
    }
    let mode = match &args.mode {
        Some(m) => m.clone(),
        None => owned("check"),
    };
    assert(mode@ == opt_view(args.mode).unwrap_or("check"@));
    let do_apply = if str_eq(mode.as_str(), "apply") {
        true
    } else if str_eq(mode.as_str(), "check") {
        false
    } else {
        let mut msg = owned("invalid mode ");
        let quoted = debug_quoted(mode.as_str());
        push_str(&mut msg, quoted.as_str());
        push_str(&mut msg, "; must be 'check' or 'apply'");
        assert(msg@ =~= invalid_mode_message(mode@));
        return Err(msg);
    };
    let cwd = match &args.cwd {
        Some(c) => c.clone(),
        None => owned("."),
    };
    Ok(ApplyPatchRequest { patch_text: text, mode, do_apply, cwd })
}

pub open spec fn spec_apply_patch_summary(do_apply: bool, changed: nat, stdout: Seq<char>) -> Seq<
    char,
> {
    if stdout.len() == 0 {
        (if do_apply {
            "applied"@
        } else {
            "ok (check)"@
        }) + " across "@ + spec_decimal(changed) + " file(s)"@
    } else if do_apply {
        stdout
    } else {
        "ok (check): "@ + stdout
    }
}

/// The summary an `apply_patch` run reports, from the tool's trimmed output.
pub fn apply_patch_summary(do_apply: bool, changed: usize, stdout: &str) -> (r: String)
    ensures
        r@ == spec_apply_patch_summary(do_apply, changed as nat, stdout@),
{
    if stdout.unicode_len() == 0 {
        let mut s = if do_apply {
            owned("applied")
        } else {
            owned("ok (check)")
        };
        let ghost verb = s@;
        push_str(&mut s, " across ");
        push_decimal(&mut s, changed as u64);
        push_str(&mut s, " file(s)");
        assert(s@ =~= verb + " across "@ + spec_decimal(changed as nat) + " file(s)"@);
        s
    } else if do_apply {
        owned(stdout)
    } else {
        let mut s = owned("ok (check): ");
        push_str(&mut s, stdout);
        s
    }
}

} // verus!
