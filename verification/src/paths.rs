//! File-system path operations of std that the library relies on. How a path
//! splits into components depends on the platform: `/` separates on every
//! platform, `\` and drive or verbatim prefixes (`C:`, `\\?\`) only on
//! Windows. The contracts state what the documentation gives for paths on
//! which the platforms agree, and leave the rest unstated.
use vstd::prelude::*;

verus! {

/// Whether `c` separates path components on some platform.
pub open spec fn is_any_separator(c: char) -> bool {
    c == '/' || c == '\\'
}

/// A text that is one normal component wherever it follows a separator, on
/// every platform: not empty, free of `/` and `\`, and neither `.` nor `..`.
/// (`:` is an ordinary character there.)
pub open spec fn is_component_name(n: Seq<char>) -> bool {
    &&& n.len() > 0
    &&& forall|i: int| 0 <= i < n.len() ==> n[i] != '/' && n[i] != '\\'
    &&& n != seq!['.']
    &&& n != seq!['.', '.']
}

/// Whether `p` may start with a drive on Windows: its second character is `:`.
pub open spec fn starts_like_drive(p: Seq<char>) -> bool {
    p.len() >= 2 && p[1] == ':'
}

/// A name that is a relative path of one normal component on every
/// platform: a component name that does not start like a drive (`a:b.pdf`
/// would be the drive `a:` on Windows).
pub open spec fn is_plain_name(n: Seq<char>) -> bool {
    is_component_name(n) && !starts_like_drive(n)
}

/// A path that every platform splits at `/` alone: no `\`, no leading `//`,
/// and not starting like a drive (`:` elsewhere is an ordinary character).
pub open spec fn is_simple_path(p: Seq<char>) -> bool {
    &&& forall|i: int| 0 <= i < p.len() ==> p[i] != '\\'
    &&& !starts_like_drive(p)
    &&& !(p.len() >= 2 && p[0] == '/' && p[1] == '/')
}

/// The text after the last `/` or `\` of `p` (all of `p` when it has none).
pub open spec fn final_segment(p: Seq<char>) -> Seq<char>
    decreases p.len(),
{
    if p.len() == 0 {
        p
    } else if is_any_separator(p.last()) {
        Seq::empty()
    } else {
        final_segment(p.drop_last()).push(p.last())
    }
}

/// The text after the last `/` of `p` (all of `p` when it has none).
pub open spec fn slash_segment(p: Seq<char>) -> Seq<char>
    decreases p.len(),
{
    if p.len() == 0 {
        p
    } else if p.last() == '/' {
        Seq::empty()
    } else {
        slash_segment(p.drop_last()).push(p.last())
    }
}

/// Whether no `/` in `p` is directly followed by `\`.
pub open spec fn no_backslash_after_slash(p: Seq<char>) -> bool {
    forall|i: int| #![trigger p[i]] 0 <= i < p.len() - 1 && p[i] == '/' ==> p[i + 1] != '\\'
}

/// `res` is where a join of `name` onto `folder` lands: `name` appended to
/// the folder (see `joins_to`), or, for a name that starts like a drive,
/// possibly `name` alone (Windows reads `C:` as a drive there).
pub open spec fn lands_in(res: Seq<char>, folder: Seq<char>, name: Seq<char>) -> bool {
    ||| joins_to(res, folder, name)
    ||| (starts_like_drive(name) && res == name)
}

/// `p` without the `/` characters it ends with.
pub open spec fn without_trailing_slashes(p: Seq<char>) -> Seq<char>
    decreases p.len(),
{
    if p.len() > 0 && p.last() == '/' {
        without_trailing_slashes(p.drop_last())
    } else {
        p
    }
}

/// The file name of a simple path: its last segment once trailing `/` are
/// dropped (`a/b/` has the file name `b`).
pub open spec fn simple_file_name(p: Seq<char>) -> Seq<char> {
    final_segment(without_trailing_slashes(p))
}

/// A simple path whose file name is a component name.
pub open spec fn has_simple_file_name(p: Seq<char>) -> bool {
    is_simple_path(p) && is_component_name(simple_file_name(p))
}

/// Whether `p` can start no prefix on any platform: it starts neither with
/// `\` nor with `/` followed by a separator.
pub open spec fn has_no_prefix(p: Seq<char>) -> bool {
    &&& p.len() > 0 ==> p[0] != '\\'
    &&& !(p.len() >= 2 && p[0] == '/' && is_any_separator(p[1]))
}

/// A path with no prefix on any platform (see `has_no_prefix`) whose text
/// after its last `/` or `\` is a component name, such as
/// `C:\Users\You\scan.pdf` or `docs/10:30 scan.pdf`, and which is not a
/// single segment that starts like a drive. Its file name is that text on
/// Windows, and elsewhere that text after whatever precedes it up to the last
/// `/`.
pub open spec fn is_portable_path(p: Seq<char>) -> bool {
    &&& p.len() > 0
    &&& has_no_prefix(p)
    &&& is_component_name(final_segment(p))
    &&& !(starts_like_drive(p) && final_segment(p) == p)
}

/// `m` is `s`, or ends in `\` followed by `s`.
pub open spec fn ends_with_segment(m: Seq<char>, s: Seq<char>) -> bool {
    ||| m == s
    ||| (m.len() > s.len() && m.subrange(m.len() - s.len(), m.len() as int) == s && m[m.len()
        - s.len() - 1] == '\\')
}

/// Whether `p` is `..` or ends in `/..`.
pub open spec fn ends_in_parent(p: Seq<char>) -> bool {
    ||| p == seq!['.', '.']
    ||| (p.len() >= 3 && p[p.len() - 3] == '/' && p[p.len() - 2] == '.' && p[p.len() - 1] == '.')
}

/// Whether `f` is a folder to which every platform appends a relative name in
/// the same way: empty, or with no prefix (see `has_no_prefix`), not ending
/// in `\`, and not a bare drive such as `C:`.
pub open spec fn is_appendable_folder(f: Seq<char>) -> bool {
    ||| f.len() == 0
    ||| {
        &&& has_no_prefix(f)
        &&& f.last() != '\\'
        &&& !(f.len() == 2 && f[1] == ':')
    }
}

/// `res` is `name` appended to the folder `folder`: `name` itself for the
/// empty folder, directly after a folder that ends in `/`, and otherwise
/// after one separator (`/`, or `\` on Windows).
pub open spec fn joins_to(res: Seq<char>, folder: Seq<char>, name: Seq<char>) -> bool {
    if folder.len() == 0 {
        res == name
    } else if folder.last() == '/' {
        res == folder + name
    } else {
        res == folder + seq!['/'] + name || res == folder + seq!['\\'] + name
    }
}

/// Whether `f` may be the file name of `p`, by what holds on every platform.
pub open spec fn file_name_fits(p: Seq<char>, f: Option<Seq<char>>) -> bool {
    &&& f is Some ==> f->0.len() > 0
    &&& (is_simple_path(p) && (without_trailing_slashes(p).len() == 0 || ends_in_parent(p)))
        ==> f is None
    &&& has_simple_file_name(p) ==> f == Some(simple_file_name(p))
    &&& is_portable_path(p) ==> (f is Some && ends_with_segment(f->0, final_segment(p)))
}

/// Calls `std::path::Path::file_name` on `path` and hands back the final
/// component as text. Stated, as the documentation gives it: a file name is a
/// normal component, so never empty. For a simple path (split at `/` on every
/// platform) there is none when the path is empty, `/`, or ends in `..`, and
/// otherwise it is the last segment once trailing `/` are dropped. For a
/// portable path (see `is_portable_path`) it is the text after the last `/`
/// or `\` on Windows, and the text after the last `/` elsewhere, where `\`
/// is an ordinary character. On every platform a file name holds no `/`.
/// Other paths are left unstated.
#[verifier::external_body]
pub(crate) fn path_file_name(path: &str) -> (res: Option<String>)
    ensures
        res is Some ==> res->0@.len() > 0,
        res is Some ==> forall|i: int| 0 <= i < res->0@.len() ==> res->0@[i] != '/',
        is_portable_path(path@) ==> (res is Some && (res->0@ == final_segment(path@) || res->0@
            == slash_segment(path@))),
        (is_simple_path(path@) && (without_trailing_slashes(path@).len() == 0 || ends_in_parent(
            path@,
        ))) ==> res is None,
        has_simple_file_name(path@) ==> (res is Some && res->0@ == simple_file_name(path@)),
        is_portable_path(path@) ==> (res is Some && ends_with_segment(
            res->0@,
            final_segment(path@),
        )),
{
    match std::path::Path::new(path).file_name() {
        Some(name) => Some(name.to_string_lossy().into_owned()),
        None => None,
    }
}

/// Calls `std::path::Path::join` to adjoin `name` to the folder `folder` and
/// hands back the resulting path as text. Stated, as `PathBuf::push`
/// documents it: a plain name is relative, so it extends the folder; the
/// separator goes in unless the folder is empty or already ends in one. A
/// name that starts neither with a separator nor like a drive is relative on
/// every platform, so it is appended. A name that starts like a drive (`C:`)
/// is appended on Unix and, when Windows reads a drive there, replaces the
/// folder. This is stated for folders that every platform treats alike (see
/// `is_appendable_folder`); folders with a verbatim or UNC prefix, a bare
/// drive, or a trailing `\`, and names that start with a separator, are left
/// unstated.
#[verifier::external_body]
pub(crate) fn path_join(folder: &str, name: &str) -> (res: String)
    ensures
        (is_plain_name(name@) && is_appendable_folder(folder@)) ==> joins_to(
            res@,
            folder@,
            name@,
        ),
        (is_appendable_folder(folder@) && name@.len() > 0 && !is_any_separator(name@[0])
            && !starts_like_drive(name@)) ==> joins_to(res@, folder@, name@),
        (is_appendable_folder(folder@) && name@.len() > 0 && !is_any_separator(name@[0]))
            ==> lands_in(res@, folder@, name@),
{
    std::path::Path::new(folder).join(name).to_string_lossy().into_owned()
}

/// The final segment of a name appended after a separator, or to nothing, is
/// the name.
pub proof fn lemma_final_segment_after_separator(x: Seq<char>, n: Seq<char>)
    requires
        x.len() == 0 || is_any_separator(x.last()),
        forall|i: int| 0 <= i < n.len() ==> !is_any_separator(#[trigger] n[i]),
    ensures
        final_segment(x + n) == n,
    decreases n.len(),
{
    if n.len() == 0 {
        assert(x + n =~= x);
    } else {
        assert((x + n).drop_last() =~= x + n.drop_last());
        assert((x + n).last() == n.last());
        lemma_final_segment_after_separator(x, n.drop_last());
        assert(n.drop_last().push(n.last()) =~= n);
    }
}

/// A name appended to a folder keeps its final segment: the target of a
/// join ends in the name.
pub proof fn lemma_joined_final_segment(res: Seq<char>, folder: Seq<char>, name: Seq<char>)
    requires
        joins_to(res, folder, name),
        is_plain_name(name),
    ensures
        final_segment(res) == name,
{
    assert forall|i: int| 0 <= i < name.len() implies !is_any_separator(#[trigger] name[i]) by {}
    if folder.len() == 0 {
        lemma_final_segment_after_separator(Seq::empty(), name);
        assert(Seq::<char>::empty() + name =~= name);
    } else if folder.last() == '/' {
        lemma_final_segment_after_separator(folder, name);
    } else if res == folder + seq!['/'] + name {
        lemma_final_segment_after_separator(folder + seq!['/'], name);
    } else {
        lemma_final_segment_after_separator(folder + seq!['\\'], name);
    }
}

/// Text in front of a name that ends in a separator, or text in front of a
/// name that holds one, leaves the name's final segment as it is.
pub proof fn lemma_final_segment_of_suffix(x: Seq<char>, m: Seq<char>)
    requires
        x.len() == 0 || is_any_separator(x.last()) || exists|i: int|
            0 <= i < m.len() && is_any_separator(#[trigger] m[i]),
    ensures
        final_segment(x + m) == final_segment(m),
    decreases m.len(),
{
    if m.len() == 0 {
        assert(x + m =~= x);
    } else {
        assert((x + m).drop_last() =~= x + m.drop_last());
        assert((x + m).last() == m.last());
        if !is_any_separator(m.last()) {
            if !(x.len() == 0 || is_any_separator(x.last())) {
                let i = choose|i: int| 0 <= i < m.len() && is_any_separator(#[trigger] m[i]);
                assert(m.drop_last()[i] == m[i]);
            }
            lemma_final_segment_of_suffix(x, m.drop_last());
        }
    }
}

/// The text after the last `/` ends `p`, right after a `/` or at its start,
/// and holds no `/`.
pub proof fn lemma_slash_segment_shape(p: Seq<char>)
    ensures
        slash_segment(p).len() <= p.len(),
        slash_segment(p) == p.subrange(p.len() - slash_segment(p).len(), p.len() as int),
        slash_segment(p).len() == p.len() || p[p.len() - slash_segment(p).len() - 1] == '/',
        forall|i: int| 0 <= i < slash_segment(p).len() ==> #[trigger] slash_segment(p)[i] != '/',
    decreases p.len(),
{
    if p.len() > 0 && p.last() != '/' {
        lemma_slash_segment_shape(p.drop_last());
        let s = slash_segment(p.drop_last());
        assert(slash_segment(p) == s.push(p.last()));
        assert(s.push(p.last()) =~= p.subrange(p.len() - s.len() - 1, p.len() as int));
    }
}

/// A name with no separator is its own final segment.
pub proof fn lemma_final_segment_of_name(n: Seq<char>)
    requires
        forall|i: int| 0 <= i < n.len() ==> !is_any_separator(#[trigger] n[i]),
    ensures
        final_segment(n) == n,
{
    lemma_final_segment_after_separator(Seq::empty(), n);
    assert(Seq::<char>::empty() + n =~= n);
}

/// Both file names that the platforms give a portable path without `/\`
/// (its final segment, and its text after the last `/`) are non-empty, start
/// with no separator, and have the path's final segment as their own.
pub proof fn lemma_portable_file_names(p: Seq<char>, name: Seq<char>)
    requires
        is_portable_path(p),
        no_backslash_after_slash(p),
        name == final_segment(p) || name == slash_segment(p),
    ensures
        name.len() > 0,
        !is_any_separator(name[0]),
        final_segment(name) == final_segment(p),
{
    let f = final_segment(p);
    assert forall|i: int| 0 <= i < f.len() implies !is_any_separator(#[trigger] f[i]) by {}
    lemma_final_segment_of_name(f);
    if name == slash_segment(p) && name != f {
        lemma_slash_segment_shape(p);
        let k = p.len() - name.len();
        let x = p.subrange(0, k);
        assert(p =~= x + name);
        assert(x.len() == 0 || x.last() == '/');
        lemma_final_segment_of_suffix(x, name);
        assert(p.last() == f.last());
        assert(!is_any_separator(p.last()));
        assert(name.len() > 0);
        if k > 0 {
            assert(p[k - 1] == '/');
            assert(p[k] == name[0]);
        } else {
            assert(name[0] == p[0]);
        }
    }
}

/// Where a join of a name lands, the final segment is the name's own.
pub proof fn lemma_landing_final_segment(res: Seq<char>, folder: Seq<char>, name: Seq<char>)
    requires
        lands_in(res, folder, name),
    ensures
        final_segment(res) == final_segment(name),
{
    if joins_to(res, folder, name) {
        if folder.len() == 0 {
        } else if folder.last() == '/' {
            lemma_final_segment_of_suffix(folder, name);
        } else if res == folder + seq!['/'] + name {
            lemma_final_segment_of_suffix(folder + seq!['/'], name);
        } else {
            lemma_final_segment_of_suffix(folder + seq!['\\'], name);
        }
    }
}

} // verus!
