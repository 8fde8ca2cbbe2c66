//! File system paths as text, and the directories of the user.
use vstd::prelude::*;

verus! {

/// A path separator on some platform.
pub open spec fn is_path_separator(c: char) -> bool {
    c == '/' || c == '\\'
}

/// A single plain path component: ASCII letters, digits, `_`, `.` and `-`,
/// and at least one of them.
pub open spec fn plain_component(name: Seq<char>) -> bool {
    &&& name.len() > 0
    &&& forall|i: int|
        0 <= i < name.len() ==> {
            let c = #[trigger] name[i];
            ('a' <= c && c <= 'z') || ('A' <= c && c <= 'Z') || ('0' <= c && c <= '9') || c
                == '_' || c == '.' || c == '-'
        }
}

/// `base` may be a Windows verbatim path such as `\\?\C:\x`: it starts
/// with two separators and a `?`. Joining onto such a base normalises it,
/// so the joining rule below is not promised for it.
pub open spec fn may_be_verbatim(base: Seq<char>) -> bool {
    &&& base.len() >= 3
    &&& is_path_separator(base[0])
    &&& is_path_separator(base[1])
    &&& base[2] == '?'
}

/// A bare Windows drive such as `C:`.
pub open spec fn bare_drive(base: Seq<char>) -> bool {
    &&& base.len() == 2
    &&& (('a' <= base[0] && base[0] <= 'z') || ('A' <= base[0] && base[0] <= 'Z'))
    &&& base[1] == ':'
}

/// `path` is what joining the relative component `name` onto `base` gives:
/// no separator after an empty base or one ending in `/`; after a base
/// ending in `\` none on Windows and `/` elsewhere; after a bare drive
/// none on Windows and `/` elsewhere; otherwise one separator, `/` or `\`
/// as the platform has it.
pub open spec fn joined(base: Seq<char>, name: Seq<char>, path: Seq<char>) -> bool {
    if base.len() == 0 || base.last() == '/' {
        path == base + name
    } else if base.last() == '\\' || bare_drive(base) {
        path == base + name || path == base + seq!['/'] + name
    } else {
        exists|c: char| is_path_separator(c) && path == base + seq![c] + name
    }
}

/// `path` ends in `name` as its last component: a separator, then `name`.
pub open spec fn ends_in_component(path: Seq<char>, name: Seq<char>) -> bool {
    &&& path.len() > name.len()
    &&& is_path_separator(path[path.len() - name.len() - 1])
    &&& path.subrange(path.len() - name.len(), path.len() as int) == name
}

/// A plain component that joining never drops: neither `.` nor `..`.
pub open spec fn kept_component(name: Seq<char>) -> bool {
    &&& plain_component(name)
    &&& name != seq!['.']
    &&& name != seq!['.', '.']
}

/// What joining `name` onto `base` gives on every platform: the joining
/// rule above for a base that is not verbatim; for one that may be, a path
/// that may be verbatim too and ends in `name` as its last component.
pub open spec fn join_result(base: Seq<char>, name: Seq<char>, path: Seq<char>) -> bool {
    &&& !may_be_verbatim(base) ==> joined(base, name, path)
    &&& may_be_verbatim(base) ==> may_be_verbatim(path) && ends_in_component(path, name)
}

/// `path` is `second` joined onto `first` joined onto `base`.
pub open spec fn joined_twice(
    base: Seq<char>,
    first: Seq<char>,
    second: Seq<char>,
    path: Seq<char>,
) -> bool {
    exists|mid: Seq<char>|
        #![trigger joined(mid, second, path)]
        joined(base, first, mid) && joined(mid, second, path)
}

/// What joining `first` and then `second` onto `base` gives: both names
/// joined by the rule when the base is not verbatim; a path that may be
/// verbatim when it may be; and in any case `second` as the last component.
pub open spec fn join_twice_result(
    base: Seq<char>,
    first: Seq<char>,
    second: Seq<char>,
    path: Seq<char>,
) -> bool {
    &&& !may_be_verbatim(base) ==> joined_twice(base, first, second, path)
    &&& may_be_verbatim(base) ==> may_be_verbatim(path)
    &&& ends_in_component(path, second)
}

/// Joining a plain component never makes a verbatim path out of one that
/// is not.
pub proof fn lemma_joined_not_verbatim(base: Seq<char>, name: Seq<char>, path: Seq<char>)
    requires
        !may_be_verbatim(base),
        plain_component(name),
        joined(base, name, path),
    ensures
        !may_be_verbatim(path),
{
    assert(!is_path_separator(name[0]) && name[0] != '?');
    if name.len() > 1 {
        assert(!is_path_separator(name[1]) && name[1] != '?');
    }
    if name.len() > 2 {
        assert(name[2] != '?');
    }
    if base.len() >= 3 {
        if may_be_verbatim(path) {
            assert(path[0] == base[0] && path[1] == base[1] && path[2] == base[2]);
        }
    }
}

/// After a plain component has been joined onto any base, joining another
/// one puts a separator in between.
pub proof fn lemma_joined_after_component(mid: Seq<char>, first: Seq<char>, second: Seq<char>, path: Seq<char>)
    requires
        plain_component(first),
        plain_component(second),
        mid.len() >= first.len(),
        mid.subrange(mid.len() - first.len(), mid.len() as int) == first,
        joined(mid, second, path),
    ensures
        ends_in_component(path, second),
{
    let last = first.last();
    assert(mid.last() == mid.subrange(mid.len() - first.len(), mid.len() as int)[first.len() - 1]);
    assert(mid.last() == last);
    assert(last != '/' && last != '\\' && last != ':');
    assert(!bare_drive(mid));
    let c = choose|c: char| is_path_separator(c) && path == mid + seq![c] + second;
    assert(path.subrange(path.len() - second.len(), path.len() as int) =~= second);
    assert(path[path.len() - second.len() - 1] == c);
}

/// Joining two components in turn gives `join_twice_result`.
pub proof fn lemma_join_twice(
    base: Seq<char>,
    first: Seq<char>,
    second: Seq<char>,
    mid: Seq<char>,
    path: Seq<char>,
)
    requires
        kept_component(first),
        kept_component(second),
        join_result(base, first, mid),
        join_result(mid, second, path),
    ensures
        join_twice_result(base, first, second, path),
{
    if may_be_verbatim(base) {
        assert(may_be_verbatim(mid));
        assert(may_be_verbatim(path));
    } else {
        lemma_joined_not_verbatim(base, first, mid);
        assert(joined(base, first, mid));
        if base.len() == 0 || base.last() == '/' {
            assert(mid == base + first);
        } else if base.last() == '\\' || bare_drive(base) {
        } else {
            let c = choose|c: char| is_path_separator(c) && mid == base + seq![c] + first;
        }
        assert(mid.subrange(mid.len() - first.len(), mid.len() as int) =~= first);
        lemma_joined_after_component(mid, first, second, path);
        assert(joined_twice(base, first, second, path));
    }
}

/// `Path::new(base).join(name)`, as text. For a relative `name` std's
/// `PathBuf::push` appends it to the base, putting the platform's separator
/// (`/`, or `\` on Windows) in between unless the base is empty, already
/// ends in a separator of the platform (`/`, and on Windows also `\`), or
/// is a bare drive such as `C:` on Windows. A plain component is relative on
/// every platform. Onto a Windows verbatim base (`\\?\...`) std documents
/// that the path is extended and then normalised, which removes only `.` and
/// `..` components: the base's prefix stays at the front and the name, which
/// is neither `.` nor `..`, stays the last component after a separator. How
/// the rest of a verbatim base is rewritten is not stated.
#[verifier::external_body]
pub(crate) fn join_path(base: &str, name: &str) -> (path: String)
    requires
        kept_component(name@),
    ensures
        join_result(base@, name@, path@),
{
    std::path::Path::new(base).join(name).to_string_lossy().into_owned()
}

/// `dirs::config_dir()`, as text. It depends on the platform and the
/// environment: nothing is promised of it. A directory whose name is not
/// valid Unicode comes back with U+FFFD in place of what cannot be read,
/// so paths built on it name another directory.
#[verifier::external_body]
pub(crate) fn config_dir() -> (dir: Option<String>) {
    match dirs::config_dir() {
        Some(p) => Some(p.to_string_lossy().into_owned()),
        None => None,
    }
}

/// `dirs::download_dir()`, as text. It depends on the platform and the
/// environment: nothing is promised of it. A directory whose name is not
/// valid Unicode comes back with U+FFFD in place of what cannot be read,
/// so paths built on it name another directory.
#[verifier::external_body]
pub(crate) fn download_dir() -> (dir: Option<String>) {
    match dirs::download_dir() {
        Some(p) => Some(p.to_string_lossy().into_owned()),
        None => None,
    }
}

} // verus!
