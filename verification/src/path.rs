//! File path components, as std's `Path` splits them on the host platform.
use vstd::prelude::*;

use crate::text::{contains_seq, lemma_find_from_none, occurs_at, split_on};

verus! {

/// A path whose components every platform reads alike: no `\\` (a separator
/// on Windows only), no `:` (which starts a drive prefix on Windows), and no
/// leading `//` (which starts a UNC prefix on Windows).
pub open spec fn plain_path(p: Seq<char>) -> bool {
    !p.contains('\\') && !p.contains(':') && !(p.len() >= 2 && p[0] == '/' && p[1] == '/')
}

/// The pieces between separators that name something: empty pieces and `.`
/// pieces are left out.
pub open spec fn named_pieces(ps: Seq<Seq<char>>) -> Seq<Seq<char>>
    decreases ps.len(),
{
    if ps.len() == 0 {
        seq![]
    } else {
        named_pieces(ps.drop_last()) + if ps.last().len() > 0 && ps.last() != seq!['.'] {
            seq![ps.last()]
        } else {
            seq![]
        }
    }
}

/// The file name of a plain path, as std's `Path::file_name` documents it:
/// its last component, ignoring empty and `.` components; none when there
/// is no component or the last one is `..`.
pub open spec fn file_name_of(p: Seq<char>) -> Option<Seq<char>> {
    let ps = named_pieces(split_on(p, seq!['/']));
    if ps.len() == 0 || ps.last() == seq!['.', '.'] {
        None
    } else {
        Some(ps.last())
    }
}

/// The index of the last `.` of a name, or -1.
pub open spec fn last_dot(n: Seq<char>) -> int
    decreases n.len(),
{
    if n.len() == 0 {
        -1
    } else if n.last() == '.' {
        n.len() - 1
    } else {
        last_dot(n.drop_last())
    }
}

/// The extension of a file name, as std documents it: none without an
/// embedded `.` or when the only `.` begins the name; else what follows
/// the last `.`.
pub open spec fn name_extension(n: Seq<char>) -> Option<Seq<char>> {
    if last_dot(n) <= 0 {
        None
    } else {
        Some(n.subrange(last_dot(n) + 1, n.len() as int))
    }
}

/// The extension of a plain path: that of its file name.
pub open spec fn extension_of(p: Seq<char>) -> Option<Seq<char>> {
    match file_name_of(p) {
        Some(n) => name_extension(n),
        None => None,
    }
}

/// The last `.` of a name is at `k` when `k` holds one and no later index
/// does.
proof fn lemma_last_dot_at(n: Seq<char>, k: int)
    requires
        0 <= k < n.len(),
        n[k] == '.',
        forall|j: int| k < j < n.len() ==> n[j] != '.',
    ensures
        last_dot(n) == k,
    decreases n.len(),
{
    if n.len() - 1 != k {
        lemma_last_dot_at(n.drop_last(), k);
    }
}

/// A one-component name `stem.ext`, without `/`, whose stem is not empty and
/// does not begin with a dot and whose extension holds no dot, has the
/// extension `ext`.
pub proof fn lemma_extension_of_name(stem: Seq<char>, ext: Seq<char>)
    requires
        stem.len() > 0,
        stem[0] != '.',
        !stem.contains('/'),
        !ext.contains('/'),
        !ext.contains('.'),
    ensures
        extension_of(stem + seq!['.'] + ext) == Some(ext),
{
    let p = stem + seq!['.'] + ext;
    let k = stem.len() as int;
    assert forall|j: int| 0 <= j < p.len() implies p[j] != '/' by {
        if j < k {
            assert(p[j] == stem[j]);
        } else if j > k {
            assert(p[j] == ext[j - k - 1]);
        }
    }
    assert forall|j: int| 0 <= j implies !occurs_at(p, seq!['/'], j) by {
        if occurs_at(p, seq!['/'], j) {
            assert(p.subrange(j, j + 1)[0] == p[j]);
        }
    }
    lemma_find_from_none(p, seq!['/'], 0);
    assert(split_on(p, seq!['/']) == seq![p]);
    assert(seq![p].drop_last() =~= Seq::<Seq<char>>::empty());
    assert(named_pieces(Seq::<Seq<char>>::empty()) == Seq::<Seq<char>>::empty());
    assert(p != seq!['.']);
    assert(named_pieces(seq![p]) =~= seq![p]);
    assert(p[0] == stem[0]);
    assert(p != seq!['.', '.']);
    assert forall|j: int| k < j < p.len() implies p[j] != '.' by {
        assert(p[j] == ext[j - k - 1]);
    }
    lemma_last_dot_at(p, k);
    assert(p.subrange(k + 1, p.len() as int) =~= ext);
}

/// Calls std's `Path::extension`: the part of the file name after its last
/// dot. On a plain path the result is the one std's documentation gives
/// ([`extension_of`]). Other paths split into components differently on
/// different platforms; of them only what holds on every platform is
/// stated: without a dot there is no extension, and an extension follows a
/// dot in the path and holds no `/`.
#[verifier::external_body]
pub(crate) fn path_extension(path: &str) -> (r: Option<String>)
    ensures
        plain_path(path@) ==> crate::parser::entity::opt_view(r) == extension_of(path@),
        !path@.contains('.') ==> r is None,
        r matches Some(e) ==> contains_seq(path@, seq!['.'] + e@) && !e@.contains('/'),
{
    std::path::Path::new(path).extension().and_then(|e| e.to_str()).map(|e| e.to_string())
}

/// Calls std's `Path::file_name`: the last component of the path. On a
/// plain path the result is the one std's documentation gives
/// ([`file_name_of`]). Of other paths, whose splitting into components
/// depends on the platform, only what holds on every platform is stated: a
/// file name is a non-empty piece of the path without `/`, and an empty path
/// has none.
#[verifier::external_body]
pub(crate) fn path_file_name(path: &str) -> (r: Option<String>)
    ensures
        plain_path(path@) ==> crate::parser::entity::opt_view(r) == file_name_of(path@),
        path@.len() == 0 ==> r is None,
        r matches Some(n) ==> n@.len() > 0 && contains_seq(path@, n@) && !n@.contains('/'),
{
    std::path::Path::new(path).file_name().map(|f| f.to_string_lossy().to_string())
}

} // verus!
