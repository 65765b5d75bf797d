//! Lexical reading of a path: its file name and that name's extension.

use vstd::prelude::*;
use vstd::slice::slice_subrange;

verus! {

/// The byte that separates the components of a path.
pub const SEPARATOR: u8 = 0x2f;

/// The byte that introduces an extension.
pub const DOT: u8 = 0x2e;

/// The extension of a session log, `jsonl`, without the dot.
pub open spec fn session_log_extension() -> Seq<u8> {
    seq![0x6au8, 0x73u8, 0x6fu8, 0x6eu8, 0x6cu8]
}

/// Whether the byte at `k` is a separator, or a dot that stands at the front
/// or directly behind a separator. The last byte of a path is such a byte
/// exactly when it belongs to no name.
pub open spec fn is_separator_or_leading_dot(path: Seq<u8>, k: int) -> bool {
    path[k] == SEPARATOR || (path[k] == DOT && (k == 0 || path[k - 1] == SEPARATOR))
}

/// Whether `path` ends in a byte that belongs to no name: a separator, or a
/// dot that is a component by itself.
pub open spec fn ends_in_skipped(path: Seq<u8>) -> bool {
    path.len() > 0 && is_separator_or_leading_dot(path, path.len() - 1)
}

/// `path` without its trailing separators and `.` components.
pub open spec fn trim_end(path: Seq<u8>) -> Seq<u8>
    decreases path.len(),
{
    if ends_in_skipped(path) {
        trim_end(path.drop_last())
    } else {
        path
    }
}

/// The index at which the last component of `path` begins: just behind the
/// last separator, or 0 where there is none.
pub open spec fn name_start(path: Seq<u8>) -> int
    decreases path.len(),
{
    if path.len() == 0 {
        0
    } else if path.last() == SEPARATOR {
        path.len() as int
    } else {
        name_start(path.drop_last())
    }
}

/// The file name of `path`: its last component once trailing separators and
/// `.` components are set aside. A path without components, or one that ends
/// in `..`, has none.
pub open spec fn file_name_of(path: Seq<u8>) -> Option<Seq<u8>> {
    let trimmed = trim_end(path);
    let name = trimmed.subrange(name_start(trimmed), trimmed.len() as int);
    if name.len() == 0 || name == seq![DOT, DOT] {
        None
    } else {
        Some(name)
    }
}

/// The index of the last dot in `name`.
pub open spec fn last_dot(name: Seq<u8>) -> Option<int>
    decreases name.len(),
{
    if name.len() == 0 {
        None
    } else if name.last() == DOT {
        Some(name.len() - 1)
    } else {
        last_dot(name.drop_last())
    }
}

/// The extension of a file name: what follows its last dot.
pub open spec fn extension_of(name: Seq<u8>) -> Option<Seq<u8>> {
    match last_dot(name) {
        Some(i) => Some(name.subrange(i + 1, name.len() as int)),
        None => None,
    }
}

/// Whether `path` names a session log: it has a file name, and that name's
/// extension is `jsonl`, byte for byte.
pub open spec fn is_session_log(path: Seq<u8>) -> bool {
    match file_name_of(path) {
        Some(name) => extension_of(name) == Some(session_log_extension()),
        None => false,
    }
}

/// Whether `s` ends in `suffix`.
pub open spec fn ends_with(s: Seq<u8>, suffix: Seq<u8>) -> bool {
    s.len() >= suffix.len() && s.subrange(s.len() - suffix.len(), s.len() as int) == suffix
}

/// The suffix of a session log's name: `.jsonl`.
pub open spec fn session_log_suffix() -> Seq<u8> {
    seq![DOT] + session_log_extension()
}

/// Whether `name` can stand as a file name: it is not empty, holds no
/// separator, and is neither `.` nor `..`.
pub open spec fn is_plain_name(name: Seq<u8>) -> bool {
    &&& name.len() > 0
    &&& forall|k: int| 0 <= k < name.len() ==> name[k] != SEPARATOR
    &&& name != seq![DOT]
    &&& name != seq![DOT, DOT]
}

/// Whether `tail` can follow a file name without changing it: it is empty,
/// or begins with a separator and holds only separators and dots that stand
/// directly behind one.
pub open spec fn is_skipped_tail(tail: Seq<u8>) -> bool {
    &&& tail.len() > 0 ==> tail[0] == SEPARATOR
    &&& forall|k: int| 0 <= k < tail.len() ==> #[trigger] is_separator_or_leading_dot(tail, k)
}

/// The last component of a path begins within it, just behind a separator or
/// at the front, and holds no separator.
pub proof fn lemma_name_start_bounds(path: Seq<u8>)
    ensures
        0 <= name_start(path) <= path.len(),
        forall|k: int| name_start(path) <= k < path.len() ==> path[k] != SEPARATOR,
        name_start(path) == 0 || path[name_start(path) - 1] == SEPARATOR,
    decreases path.len(),
{
    if path.len() > 0 && path.last() != SEPARATOR {
        let rest = path.drop_last();
        lemma_name_start_bounds(rest);
        assert forall|k: int| name_start(path) <= k < path.len() implies path[k] != SEPARATOR by {
            if k < rest.len() {
                assert(rest[k] == path[k]);
            }
        }
    }
}

/// Trimming leaves a prefix of the path that does not end in a skipped byte,
/// and takes away only skipped bytes.
pub proof fn lemma_trim_end_is_prefix(path: Seq<u8>)
    ensures
        trim_end(path).len() <= path.len(),
        trim_end(path) == path.take(trim_end(path).len() as int),
        !ends_in_skipped(trim_end(path)),
        forall|k: int|
            trim_end(path).len() <= k < path.len() ==> #[trigger] is_separator_or_leading_dot(
                path,
                k,
            ),
    decreases path.len(),
{
    if ends_in_skipped(path) {
        let rest = path.drop_last();
        lemma_trim_end_is_prefix(rest);
        assert forall|k: int|
            trim_end(path).len() <= k < path.len() implies #[trigger] is_separator_or_leading_dot(
            path,
            k,
        ) by {
            if k < rest.len() {
                assert(is_separator_or_leading_dot(rest, k));
            }
        }
    }
}

/// A file name is a plain name that stands in the path at the front or
/// behind a separator, and what follows it there is a skipped tail.
pub proof fn lemma_file_name_is_last_plain_name(path: Seq<u8>)
    ensures
        match file_name_of(path) {
            Some(name) => {
                &&& is_plain_name(name)
                &&& exists|start: int|
                    {
                        &&& 0 <= start
                        &&& start + name.len() <= path.len()
                        &&& start == 0 || path[start - 1] == SEPARATOR
                        &&& #[trigger] path.subrange(start, start + name.len()) == name
                        &&& is_skipped_tail(
                            path.subrange(start + name.len(), path.len() as int),
                        )
                    }
            },
            None => true,
        },
{
    let trimmed = trim_end(path);
    let start = name_start(trimmed);
    let name = trimmed.subrange(start, trimmed.len() as int);
    lemma_trim_end_is_prefix(path);
    lemma_name_start_bounds(trimmed);
    if file_name_of(path) is Some {
        let end = start + name.len();
        if name == seq![DOT] {
            assert(trimmed.last() == name[0]);
        }
        assert(path.subrange(start, end) =~= name);
        let tail = path.subrange(end, path.len() as int);
        assert forall|k: int| 0 <= k < tail.len() implies #[trigger] is_separator_or_leading_dot(
            tail,
            k,
        ) by {
            assert(is_separator_or_leading_dot(path, end + k));
        }
        if tail.len() > 0 {
            assert(is_separator_or_leading_dot(path, end));
        }
    }
}

/// A plain name behind a directory prefix is the file name of the whole.
pub proof fn lemma_file_name_of_joined(prefix: Seq<u8>, name: Seq<u8>)
    requires
        prefix.len() == 0 || prefix.last() == SEPARATOR,
        is_plain_name(name),
    ensures
        file_name_of(prefix + name) == Some(name),
{
    let path = prefix + name;
    if name.len() == 1 {
        assert(name =~= seq![name[0]]);
    }
    lemma_name_start_of_joined(prefix, name);
    assert(path.subrange(prefix.len() as int, path.len() as int) =~= name);
}

proof fn lemma_name_start_of_joined(prefix: Seq<u8>, name: Seq<u8>)
    requires
        prefix.len() == 0 || prefix.last() == SEPARATOR,
        forall|k: int| 0 <= k < name.len() ==> name[k] != SEPARATOR,
    ensures
        name_start(prefix + name) == prefix.len(),
    decreases name.len(),
{
    let path = prefix + name;
    if name.len() > 0 {
        assert(path.drop_last() =~= prefix + name.drop_last());
        lemma_name_start_of_joined(prefix, name.drop_last());
    }
}

/// A plain name behind a directory prefix and before a skipped tail is the
/// file name of the whole.
pub proof fn lemma_file_name_before_tail(prefix: Seq<u8>, name: Seq<u8>, tail: Seq<u8>)
    requires
        prefix.len() == 0 || prefix.last() == SEPARATOR,
        is_plain_name(name),
        is_skipped_tail(tail),
    ensures
        file_name_of(prefix + name + tail) == Some(name),
    decreases tail.len(),
{
    let path = prefix + name + tail;
    if tail.len() == 0 {
        lemma_file_name_of_joined(prefix, name);
    } else {
        let shorter = tail.drop_last();
        let last = tail.len() - 1;
        assert(is_separator_or_leading_dot(tail, last));
        assert(path.drop_last() =~= prefix + name + shorter);
        assert forall|k: int| 0 <= k < shorter.len() implies #[trigger] is_separator_or_leading_dot(
            shorter,
            k,
        ) by {
            assert(is_separator_or_leading_dot(tail, k));
        }
        lemma_file_name_before_tail(prefix, name, shorter);
    }
}

/// Trailing separators do not change the file name.
pub proof fn lemma_file_name_ignores_trailing_separator(path: Seq<u8>)
    ensures
        file_name_of(path.push(SEPARATOR)) == file_name_of(path),
{
    let longer = path.push(SEPARATOR);
    assert(longer.drop_last() =~= path);
}

/// A trailing `.` component does not change the file name.
pub proof fn lemma_file_name_ignores_trailing_dot(path: Seq<u8>)
    ensures
        file_name_of(path.push(SEPARATOR).push(DOT)) == file_name_of(path),
{
    let longer = path.push(SEPARATOR).push(DOT);
    assert(longer.drop_last() =~= path.push(SEPARATOR));
    lemma_file_name_ignores_trailing_separator(path);
}

/// Where the last dot stands, and that none follows it.
pub proof fn lemma_last_dot(name: Seq<u8>)
    ensures
        match last_dot(name) {
            Some(i) => {
                &&& 0 <= i < name.len()
                &&& name[i] == DOT
                &&& forall|k: int| i < k < name.len() ==> name[k] != DOT
            },
            None => forall|k: int| 0 <= k < name.len() ==> name[k] != DOT,
        },
    decreases name.len(),
{
    if name.len() > 0 && name.last() != DOT {
        let rest = name.drop_last();
        lemma_last_dot(rest);
        match last_dot(rest) {
            Some(i) => {
                assert forall|k: int| i < k < name.len() implies name[k] != DOT by {
                    if k < rest.len() {
                        assert(rest[k] == name[k]);
                    }
                }
            },
            None => {
                assert forall|k: int| 0 <= k < name.len() implies name[k] != DOT by {
                    if k < rest.len() {
                        assert(rest[k] == name[k]);
                    }
                }
            },
        }
    }
}

/// A name has the extension `ext`, which holds no dot, exactly when it ends
/// in a dot followed by `ext`.
pub proof fn lemma_extension_is_suffix(name: Seq<u8>, ext: Seq<u8>)
    requires
        forall|k: int| 0 <= k < ext.len() ==> ext[k] != DOT,
    ensures
        extension_of(name) == Some(ext) <==> ends_with(name, seq![DOT] + ext),
{
    let suffix = seq![DOT] + ext;
    lemma_last_dot(name);
    if extension_of(name) == Some(ext) {
        assert(name.subrange(name.len() - suffix.len(), name.len() as int) =~= suffix);
    }
    if ends_with(name, suffix) {
        let i = name.len() - suffix.len();
        let tail = name.subrange(i, name.len() as int);
        assert(name[i] == tail[0]);
        assert forall|k: int| i < k < name.len() implies name[k] != DOT by {
            assert(suffix[k - i] == ext[k - i - 1]);
        }
        assert forall|k: int| 0 <= k < ext.len() implies name.subrange(
            i + 1,
            name.len() as int,
        )[k] == ext[k] by {
            assert(name[i + 1 + k] == tail[k + 1]);
        }
        assert(name.subrange(i + 1, name.len() as int) =~= ext);
    }
}

/// A path names a session log exactly when its file name ends in `.jsonl`.
pub proof fn lemma_session_log_ends_in_suffix(path: Seq<u8>)
    ensures
        is_session_log(path) <==> (file_name_of(path) matches Some(name) && ends_with(
            name,
            session_log_suffix(),
        )),
{
    if let Some(name) = file_name_of(path) {
        lemma_extension_is_suffix(name, session_log_extension());
    }
}

/// The file name of `path`, as a part of it.
pub fn file_name(path: &[u8]) -> (name: Option<&[u8]>)
    ensures
        match name {
            Some(n) => file_name_of(path@) == Some(n@),
            None => file_name_of(path@) is None,
        },
{
    let mut end: usize = path.len();
    assert(path@.take(end as int) =~= path@);
    while end > 0 && (path[end - 1] == SEPARATOR || (path[end - 1] == DOT && (end == 1 || path[end
        - 2] == SEPARATOR)))
        invariant
            end <= path.len(),
            trim_end(path@) == trim_end(path@.take(end as int)),
        decreases end,
    {
        assert(path@.take(end as int).drop_last() =~= path@.take(end - 1));
        end = end - 1;
    }
    let ghost trimmed = path@.take(end as int);
    let mut start: usize = end;
    while start > 0 && path[start - 1] != SEPARATOR
        invariant
            start <= end <= path.len(),
            trimmed == path@.take(end as int),
            name_start(trimmed) == name_start(path@.take(start as int)),
        decreases start,
    {
        assert(path@.take(start as int).drop_last() =~= path@.take(start - 1));
        start = start - 1;
    }
    assert(trimmed.subrange(start as int, end as int) =~= path@.subrange(start as int, end as int));
    if start == end {
        return None;
    }
    if end - start == 2 && path[start] == DOT && path[start + 1] == DOT {
        assert(path@.subrange(start as int, end as int) =~= seq![DOT, DOT]);
        return None;
    }
    let name = slice_subrange(path, start, end);
    assert(seq![DOT, DOT].len() == 2);
    Some(name)
}

/// The extension of `name`, as a part of it.
pub fn extension(name: &[u8]) -> (ext: Option<&[u8]>)
    ensures
        match ext {
            Some(e) => extension_of(name@) == Some(e@),
            None => extension_of(name@) is None,
        },
{
    let mut after: usize = name.len();
    assert(name@.take(after as int) =~= name@);
    while after > 0 && name[after - 1] != DOT
        invariant
            after <= name.len(),
            last_dot(name@) == last_dot(name@.take(after as int)),
        decreases after,
    {
        assert(name@.take(after as int).drop_last() =~= name@.take(after - 1));
        after = after - 1;
    }
    if after == 0 {
        None
    } else {
        Some(slice_subrange(name, after, name.len()))
    }
}

/// Whether `ext` is `jsonl`, byte for byte.
pub fn is_session_log_extension(ext: &[u8]) -> (same: bool)
    ensures
        same == (ext@ == session_log_extension()),
{
    let same = ext.len() == 5 && ext[0] == 0x6a && ext[1] == 0x73 && ext[2] == 0x6f && ext[3]
        == 0x6e && ext[4] == 0x6c;
    proof {
        if same {
            assert(ext@ =~= session_log_extension());
        }
    }
    same
}

/// Whether `path` names a session log.
pub fn has_jsonl_extension(path: &[u8]) -> (found: bool)
    ensures
        found == is_session_log(path@),
{
    match file_name(path) {
        Some(name) => match extension(name) {
            Some(ext) => is_session_log_extension(ext),
            None => false,
        },
        None => false,
    }
}

} // verus!
