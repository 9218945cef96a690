//! PDF files in a folder and the preview renders kept for them.
use vstd::prelude::*;
use crate::paths::{
    ends_in_parent, ends_with_segment, file_name_fits, final_segment, has_simple_file_name,
    is_portable_path, is_simple_path, path_file_name, simple_file_name, without_trailing_slashes,
};
use crate::sorted_map::SortedTextMap;

verus! {

/// One rendered page: its 1-based number and the image that shows it.
pub struct RenderedPdfPage<H> {
    pub page_number: usize,
    pub handle: H,
}

/// The preview state of one PDF.
pub enum PdfRenderState<H> {
    Loading,
    Loaded(Vec<RenderedPdfPage<H>>),
    Failed(String),
}

/// A request to render every page of one PDF at a width, for a render generation.
pub struct RenderJob {
    pub pdf_path: String,
    pub render_width: u16,
    pub generation: u64,
}

/// How pages are rendered: scaled to `target_width`, at most
/// `maximum_height` pixels high, landscape pages turned when `rotate_landscape`.
pub struct PdfRenderSettings {
    pub target_width: i32,
    pub maximum_height: i32,
    pub rotate_landscape: bool,
}

/// The tallest a rendered page may be, in pixels.
pub open spec fn max_page_height() -> int {
    1080
}

/// The settings every page of a preview is rendered with, for the width `render_width`.
pub fn pdf_render_settings(render_width: u16) -> (res: PdfRenderSettings)
    ensures
        res.target_width == render_width as int,
        res.maximum_height == max_page_height(),
        res.rotate_landscape,
{
    PdfRenderSettings {
        target_width: render_width as i32,
        maximum_height: 1080,
        rotate_landscape: true,
    }
}

/// Numbers rendered page images from 1, in order.
pub fn number_pages<H>(images: Vec<H>) -> (res: Vec<RenderedPdfPage<H>>)
    ensures
        res.len() == images.len(),
        forall|i: int|
            0 <= i < res.len() ==> (#[trigger] res[i]).page_number == i + 1 && res[i].handle
                == images[i],
{
    let ghost all = images@;
    let total = images.len();
    let mut rest = images;
    let mut pages: Vec<RenderedPdfPage<H>> = Vec::new();
    while rest.len() > 0
        invariant
            pages.len() + rest.len() == all.len(),
            all.len() == total,
            rest@ == all.skip(pages.len() as int),
            forall|i: int|
                0 <= i < pages.len() ==> (#[trigger] pages[i]).page_number == i + 1
                    && pages[i].handle == all[i],
        decreases rest.len(),
    {
        let image = rest.remove(0);
        let number = pages.len() + 1;
        pages.push(RenderedPdfPage { page_number: number, handle: image });
        assert(rest@ =~= all.skip(pages.len() as int));
    }
    pages
}

/// Whether a file name has the extension `pdf`, in lower case: as
/// `Path::extension` reads it, the text after the last `.`, where a name that
/// only starts with a `.` has none.
pub open spec fn is_pdf_file_name(name: Seq<char>) -> bool {
    let n = name.len();
    &&& n > 4
    &&& name[n - 4] == '.'
    &&& name[n - 3] == 'p'
    &&& name[n - 2] == 'd'
    &&& name[n - 1] == 'f'
}

/// Tells whether the file name `name` has the extension `pdf`.
pub fn has_pdf_extension(name: &str) -> (res: bool)
    ensures
        res == is_pdf_file_name(name@),
{
    let n = name.unicode_len();
    n > 4 && name.get_char(n - 4) == '.' && name.get_char(n - 3) == 'p' && name.get_char(n - 2)
        == 'd' && name.get_char(n - 1) == 'f'
}

/// The paths, in order, whose file names (given alongside) are PDF names.
pub open spec fn pdf_selection(paths: Seq<Seq<char>>, names: Seq<Option<Seq<char>>>) -> Seq<
    Seq<char>,
>
    decreases paths.len(),
{
    if paths.len() == 0 || names.len() == 0 {
        Seq::empty()
    } else {
        let rest = pdf_selection(paths.drop_last(), names.drop_last());
        if names.last() matches Some(n) && is_pdf_file_name(n) {
            rest.push(paths.last())
        } else {
            rest
        }
    }
}

/// The texts of a list of strings.
pub open spec fn texts(v: Seq<String>) -> Seq<Seq<char>> {
    v.map_values(|s: String| s@)
}

/// The texts of a list of optional strings.
pub open spec fn optional_texts(v: Seq<Option<String>>) -> Seq<Option<Seq<char>>> {
    v.map_values(
        |s: Option<String>|
            match s {
                Some(t) => Some(t@),
                None => None,
            },
    )
}

/// The paths, in order, whose file name (`names[i]` for `paths[i]`) is a
/// PDF name: the pairs of a path and its name, filtered by the name.
pub open spec fn paths_with_pdf_names(paths: Seq<Seq<char>>, names: Seq<Option<Seq<char>>>) -> Seq<
    Seq<char>,
> {
    Seq::new(paths.len(), |i: int| (paths[i], names[i])).filter(
        |e: (Seq<char>, Option<Seq<char>>)| names_pdf(e.1),
    ).map_values(|e: (Seq<char>, Option<Seq<char>>)| e.0)
}

/// The paths, in order, whose text after the last `/` or `\\` is a PDF name.
pub open spec fn pdf_paths_by_segment(paths: Seq<Seq<char>>) -> Seq<Seq<char>> {
    paths.filter(|p: Seq<char>| is_pdf_file_name(final_segment(p)))
}

/// The simple paths, in order, whose file name is a PDF name.
pub open spec fn pdf_paths_by_file_name(paths: Seq<Seq<char>>) -> Seq<Seq<char>> {
    paths.filter(|p: Seq<char>| is_pdf_file_name(simple_file_name(p)))
}

/// The selection keeps exactly the paths whose name is a PDF name: it is the
/// list of path and name pairs filtered by the name.
pub proof fn lemma_selection_is_filter(paths: Seq<Seq<char>>, names: Seq<Option<Seq<char>>>)
    requires
        paths.len() == names.len(),
    ensures
        pdf_selection(paths, names) == paths_with_pdf_names(paths, names),
    decreases paths.len(),
{
    reveal(Seq::filter);
    let pairs = Seq::new(paths.len(), |i: int| (paths[i], names[i]));
    let keep = |e: (Seq<char>, Option<Seq<char>>)| names_pdf(e.1);
    let first = |e: (Seq<char>, Option<Seq<char>>)| e.0;
    if paths.len() > 0 {
        lemma_selection_is_filter(paths.drop_last(), names.drop_last());
        let shorter = Seq::new(
            paths.drop_last().len(),
            |i: int| (paths.drop_last()[i], names.drop_last()[i]),
        );
        assert(pairs.drop_last() =~= shorter);
        let kept = shorter.filter(keep);
        if keep(pairs.last()) {
            assert(kept.push(pairs.last()).map_values(first) =~= kept.map_values(first).push(
                paths.last(),
            ));
        }
    } else {
        assert(pairs.filter(keep).map_values(first) =~= Seq::<Seq<char>>::empty());
    }
}

/// The selection by names that tell the same as `keep` of each path is
/// `paths` filtered by `keep`.
proof fn lemma_selection_filters(
    paths: Seq<Seq<char>>,
    names: Seq<Option<Seq<char>>>,
    keep: spec_fn(Seq<char>) -> bool,
)
    requires
        paths.len() == names.len(),
        forall|i: int| 0 <= i < paths.len() ==> names_pdf(#[trigger] names[i]) == keep(paths[i]),
    ensures
        pdf_selection(paths, names) == paths.filter(keep),
    decreases paths.len(),
{
    reveal(Seq::filter);
    if paths.len() > 0 {
        lemma_selection_filters(paths.drop_last(), names.drop_last(), keep);
        assert(names_pdf(names[paths.len() - 1]) == keep(paths[paths.len() - 1]));
    }
}

/// Keeps, in order, the paths whose file name (`names[i]` for `paths[i]`) is
/// a PDF name.
pub fn keep_pdf_paths(paths: Vec<String>, names: &Vec<Option<String>>) -> (res: Vec<String>)
    requires
        paths.len() == names.len(),
    ensures
        texts(res@) == pdf_selection(texts(paths@), optional_texts(names@)),
        texts(res@) == paths_with_pdf_names(texts(paths@), optional_texts(names@)),
{
    let ghost all = texts(paths@);
    let ghost all_names = optional_texts(names@);
    let n = paths.len();
    let mut rest = paths;
    let mut kept: Vec<String> = Vec::new();
    let mut i: usize = 0;
    while i < n
        invariant
            n == names.len(),
            all.len() == n,
            all_names.len() == n,
            all_names == optional_texts(names@),
            i <= n,
            rest.len() == n - i,
            texts(rest@) == all.skip(i as int),
            texts(kept@) == pdf_selection(all.take(i as int), all_names.take(i as int)),
        decreases n - i,
    {
        let ghost before = rest@;
        let path = rest.remove(0);
        proof {
            assert forall|j: int| 0 <= j < rest.len() implies #[trigger] rest@[j] == before[j + 1] by {}
            assert(texts(before)[0] == before[0]@);
            assert(path@ == all[i as int]) by {
                assert(all.skip(i as int)[0] == all[i as int]);
            }
            assert forall|j: int| 0 <= j < rest.len() implies #[trigger] texts(rest@)[j] == all.skip(i + 1)[j] by {
                assert(texts(before)[j + 1] == all.skip(i as int)[j + 1]);
            }
            assert(all.take(i + 1).drop_last() =~= all.take(i as int));
            assert(all_names.take(i + 1).drop_last() =~= all_names.take(i as int));
            assert(all_names[i as int] == (match names@[i as int] {
                Some(t) => Some(t@),
                None => None::<Seq<char>>,
            }));
        }
        let keep = match &names[i] {
            Some(name) => has_pdf_extension(name.as_str()),
            None => false,
        };
        if keep {
            kept.push(path);
        }
        proof {
            assert(texts(rest@) =~= all.skip(i + 1));
            assert(texts(kept@) =~= pdf_selection(all.take(i + 1), all_names.take(i + 1)));
        }
        i = i + 1;
    }
    proof {
        assert(all.take(n as int) =~= all);
        assert(all_names.take(n as int) =~= all_names);
        lemma_selection_is_filter(all, all_names);
    }
    kept
}

/// The file names of simple paths.
pub open spec fn simple_file_names(paths: Seq<Seq<char>>) -> Seq<Option<Seq<char>>> {
    paths.map_values(|p: Seq<char>| Some(simple_file_name(p)))
}

/// The texts after the last `/` or `\` of paths.
pub open spec fn final_segments(paths: Seq<Seq<char>>) -> Seq<Option<Seq<char>>> {
    paths.map_values(|p: Seq<char>| Some(final_segment(p)))
}

/// A portable path whose PDF-ness every platform decides alike: its final
/// segment is not exactly `.pdf` (a name that is an extension only on some
/// platforms, when `\` precedes it).
pub open spec fn is_decided_path(p: Seq<char>) -> bool {
    is_portable_path(p) && final_segment(p) != seq!['.', 'p', 'd', 'f']
}

/// Whether a file name, if any, is a PDF name.
pub open spec fn names_pdf(name: Option<Seq<char>>) -> bool {
    name is Some && is_pdf_file_name(name->0)
}

proof fn lemma_selection_depends_on_pdf_names(
    paths: Seq<Seq<char>>,
    a: Seq<Option<Seq<char>>>,
    b: Seq<Option<Seq<char>>>,
)
    requires
        a.len() == paths.len(),
        b.len() == paths.len(),
        forall|i: int| 0 <= i < paths.len() ==> names_pdf(#[trigger] a[i]) == names_pdf(b[i]),
    ensures
        pdf_selection(paths, a) == pdf_selection(paths, b),
    decreases paths.len(),
{
    if paths.len() > 0 {
        assert forall|i: int| 0 <= i < paths.len() - 1 implies names_pdf(
            #[trigger] a.drop_last()[i],
        ) == names_pdf(b.drop_last()[i]) by {
            assert(names_pdf(a[i]) == names_pdf(b[i]));
        }
        lemma_selection_depends_on_pdf_names(paths.drop_last(), a.drop_last(), b.drop_last());
        assert(names_pdf(a[paths.len() - 1]) == names_pdf(b[paths.len() - 1]));
    }
}

proof fn lemma_pdf_name_by_segment(m: Seq<char>, s: Seq<char>)
    requires
        ends_with_segment(m, s),
        s != seq!['.', 'p', 'd', 'f'],
    ensures
        is_pdf_file_name(m) == is_pdf_file_name(s),
{
    if m != s {
        let k = m.len() - s.len();
        assert(m[k - 1] == '\\');
        let t = m.subrange(k, m.len() as int);
        assert(t == s);
        if s.len() >= 4 {
            assert(m[m.len() - 1] == t[s.len() - 1]);
            assert(m[m.len() - 2] == t[s.len() - 2]);
            assert(m[m.len() - 3] == t[s.len() - 3]);
            assert(m[m.len() - 4] == t[s.len() - 4]);
            if s.len() == 4 && is_pdf_file_name(m) {
                assert(s =~= seq!['.', 'p', 'd', 'f']);
            }
        }
    }
}

/// Keeps, in order, the paths whose file name has the extension `pdf` (lower
/// case). File names come from `Path::file_name`; the result is the selection
/// for the names it gave, each of which fits its path on every platform
/// (`file_name_fits`). So when every path is simple with a component file
/// name, a path is kept exactly when that name is a PDF name; and when every
/// path is portable (such as `C:\docs\a.pdf` or `docs/a.pdf`), exactly when the
/// text after its last `/` or `\` is a PDF name, unless that text is only
/// `.pdf`.
pub fn select_pdf_paths(paths: Vec<String>) -> (res: Vec<String>)
    ensures
        exists|names: Seq<Option<Seq<char>>>|
            {
                &&& names.len() == paths.len()
                &&& forall|i: int|
                    0 <= i < names.len() ==> file_name_fits(
                        #[trigger] texts(paths@)[i],
                        names[i],
                    )
                &&& texts(res@) == pdf_selection(texts(paths@), names)
            },
        (forall|i: int| 0 <= i < paths.len() ==> has_simple_file_name(#[trigger] texts(paths@)[i]))
            ==> texts(res@) == pdf_selection(texts(paths@), simple_file_names(texts(paths@))),
        (forall|i: int| 0 <= i < paths.len() ==> is_decided_path(#[trigger] texts(paths@)[i]))
            ==> texts(res@) == pdf_selection(texts(paths@), final_segments(texts(paths@))),
        (forall|i: int| 0 <= i < paths.len() ==> has_simple_file_name(#[trigger] texts(paths@)[i]))
            ==> texts(res@) == pdf_paths_by_file_name(texts(paths@)),
        (forall|i: int| 0 <= i < paths.len() ==> is_decided_path(#[trigger] texts(paths@)[i]))
            ==> texts(res@) == pdf_paths_by_segment(texts(paths@)),
{
    let ghost paths_view = texts(paths@);
    let mut names: Vec<Option<String>> = Vec::new();
    let mut i: usize = 0;
    while i < paths.len()
        invariant
            i <= paths.len(),
            names.len() == i,
            paths_view == texts(paths@),
            forall|j: int| 0 <= j < i ==> file_name_fits(
                #[trigger] paths_view[j],
                optional_texts(names@)[j],
            ),
        decreases paths.len() - i,
    {
        let name = path_file_name(paths[i].as_str());
        let ghost before = names@;
        names.push(name);
        proof {
            assert(paths_view[i as int] == paths@[i as int]@);
            assert forall|j: int| 0 <= j < i + 1 implies file_name_fits(
                #[trigger] paths_view[j],
                optional_texts(names@)[j],
            ) by {
                if j < i {
                    assert(names@[j] == before[j]);
                    assert(optional_texts(before)[j] == optional_texts(names@)[j]);
                }
            }
        }
        i = i + 1;
    }
    let ghost names_view = optional_texts(names@);
    let res = keep_pdf_paths(paths, &names);
    proof {
        if forall|i: int| 0 <= i < paths_view.len() ==> has_simple_file_name(
            #[trigger] paths_view[i],
        ) {
            assert(names_view =~= simple_file_names(paths_view));
            lemma_selection_filters(
                paths_view,
                simple_file_names(paths_view),
                |p: Seq<char>| is_pdf_file_name(simple_file_name(p)),
            );
        }
        if forall|i: int| 0 <= i < paths_view.len() ==> is_decided_path(#[trigger] paths_view[i]) {
            let segs = final_segments(paths_view);
            assert forall|i: int| 0 <= i < paths_view.len() implies names_pdf(
                #[trigger] names_view[i],
            ) == names_pdf(segs[i]) by {
                assert(is_decided_path(paths_view[i]));
                assert(file_name_fits(paths_view[i], names_view[i]));
                lemma_pdf_name_by_segment(names_view[i]->0, final_segment(paths_view[i]));
            }
            lemma_selection_depends_on_pdf_names(paths_view, names_view, segs);
            lemma_selection_filters(
                paths_view,
                segs,
                |p: Seq<char>| is_pdf_file_name(final_segment(p)),
            );
        }
    }
    res
}

/// The name shown for a PDF whose file name is `file_name`.
pub open spec fn display_name(file_name: Option<Seq<char>>) -> Seq<char> {
    match file_name {
        Some(n) => n,
        None => "Unnamed PDF"@,
    }
}

/// The name shown for a PDF whose file name is `file_name`: the file name, or
/// `Unnamed PDF` when there is none.
pub fn display_name_for(file_name: Option<String>) -> (res: String)
    ensures
        res@ == display_name(
            match file_name {
                Some(n) => Some(n@),
                None => None,
            },
        ),
{
    match file_name {
        Some(name) => name,
        None => String::from_str("Unnamed PDF"),
    }
}

/// The name shown for the PDF at `pdf_path`: its file name (from
/// `Path::file_name`), or `Unnamed PDF` when it has none. On every platform a
/// simple path that is empty, `/`, or ends in `..` shows `Unnamed PDF`; a
/// simple path whose file name is a component name shows that name (`a/b/`
/// shows `b`, `d/10:30.pdf` shows `10:30.pdf`); and a portable path shows a name ending in the text after its last `/` or `\`.
pub fn pdf_display_name(pdf_path: &str) -> (res: String)
    ensures
        exists|file_name: Option<Seq<char>>|
            file_name_fits(pdf_path@, file_name) && res@ == display_name(file_name),
        (is_simple_path(pdf_path@) && (without_trailing_slashes(pdf_path@).len() == 0
            || ends_in_parent(pdf_path@))) ==> res@ == "Unnamed PDF"@,
        has_simple_file_name(pdf_path@) ==> res@ == simple_file_name(pdf_path@),
        is_portable_path(pdf_path@) ==> ends_with_segment(res@, final_segment(pdf_path@)),
{
    let file_name = path_file_name(pdf_path);
    let ghost name_view = match &file_name {
        Some(n) => Some(n@),
        None => None::<Seq<char>>,
    };
    let res = display_name_for(file_name);
    assert(file_name_fits(pdf_path@, name_view));
    assert(res@ == display_name(name_view));
    res
}

/// Which section a PDF's preview shows.
pub enum PdfSectionKind {
    /// The render is still running (or has not been asked for).
    Rendering,
    /// The rendered pages.
    Pages,
    /// A notice that the render gave no pages.
    NoPages,
    /// The render's error.
    Failed,
}

/// The section shown for the PDF at `path`, given the render table.
pub open spec fn pdf_section_for<H>(renders: Map<Seq<char>, PdfRenderState<H>>, path: Seq<char>) -> PdfSectionKind {
    if !renders.contains_key(path) {
        PdfSectionKind::Rendering
    } else {
        match renders[path] {
            PdfRenderState::Loading => PdfSectionKind::Rendering,
            PdfRenderState::Loaded(pages) => if pages.len() == 0 {
                PdfSectionKind::NoPages
            } else {
                PdfSectionKind::Pages
            },
            PdfRenderState::Failed(_) => PdfSectionKind::Failed,
        }
    }
}

/// Which section the PDF at `pdf_path` shows: rendering while it loads or has
/// no entry, its pages, a no-pages notice when the render gave none, or the
/// render's error.
pub fn pdf_section_kind<H>(renders: &SortedTextMap<PdfRenderState<H>>, pdf_path: &str) -> (res: PdfSectionKind)
    ensures
        res == pdf_section_for(renders@, pdf_path@),
        !renders@.contains_key(pdf_path@) ==> res is Rendering,
        renders@.contains_key(pdf_path@) ==> match renders@[pdf_path@] {
            PdfRenderState::Loading => res is Rendering,
            PdfRenderState::Loaded(pages) => (res is Pages <==> pages.len() > 0) && (res is NoPages
                <==> pages.len() == 0),
            PdfRenderState::Failed(_) => res is Failed,
        },
{
    match renders.get(pdf_path) {
        None => PdfSectionKind::Rendering,
        Some(PdfRenderState::Loading) => PdfSectionKind::Rendering,
        Some(PdfRenderState::Loaded(pages)) => {
            if pages.len() == 0 {
                PdfSectionKind::NoPages
            } else {
                PdfSectionKind::Pages
            }
        },
        Some(PdfRenderState::Failed(_)) => PdfSectionKind::Failed,
    }
}

/// The render table after scheduling `paths`: each of them loading, nothing else.
pub open spec fn all_loading<H>(paths: Seq<Seq<char>>) -> Map<Seq<char>, PdfRenderState<H>> {
    Map::new(|k: Seq<char>| paths.contains(k), |k: Seq<char>| PdfRenderState::Loading)
}

/// Forgets all previous renders, marks every PDF of `pdf_paths` as loading,
/// and hands back one render job per PDF, in order, at `render_width` for
/// `generation`.
pub fn schedule_pdf_renders<H>(
    pdf_paths: &Vec<String>,
    pdf_renders: &mut SortedTextMap<PdfRenderState<H>>,
    render_width: u16,
    generation: u64,
) -> (res: Vec<RenderJob>)
    ensures
        final(pdf_renders)@ == all_loading::<H>(texts(pdf_paths@)),
        res.len() == pdf_paths.len(),
        forall|i: int|
            0 <= i < res.len() ==> (#[trigger] res[i]).pdf_path@ == pdf_paths[i]@
                && res[i].render_width == render_width && res[i].generation == generation,
{
    pdf_renders.clear();
    let ghost all = texts(pdf_paths@);
    let mut jobs: Vec<RenderJob> = Vec::new();
    let mut i: usize = 0;
    assert(pdf_renders@ =~= all_loading::<H>(all.take(0)));
    while i < pdf_paths.len()
        invariant
            i <= pdf_paths.len(),
            all == texts(pdf_paths@),
            pdf_renders@ == all_loading::<H>(all.take(i as int)),
            jobs.len() == i,
            forall|j: int|
                0 <= j < i ==> (#[trigger] jobs[j]).pdf_path@ == pdf_paths[j]@
                    && jobs[j].render_width == render_width && jobs[j].generation == generation,
        decreases pdf_paths.len() - i,
    {
        pdf_renders.insert(pdf_paths[i].clone(), PdfRenderState::Loading);
        jobs.push(
            RenderJob { pdf_path: pdf_paths[i].clone(), render_width, generation },
        );
        proof {
            let t0 = all.take(i as int);
            let t1 = all.take(i + 1);
            assert forall|k: Seq<char>| #[trigger] t1.contains(k) <==> (t0.contains(k) || k
                == all[i as int]) by {
                if t1.contains(k) {
                    let j = choose|j: int| 0 <= j < t1.len() && t1[j] == k;
                    if j < i {
                        assert(t0[j] == k);
                    }
                }
                if t0.contains(k) {
                    let j = choose|j: int| 0 <= j < t0.len() && t0[j] == k;
                    assert(t1[j] == k);
                }
                if k == all[i as int] {
                    assert(t1[i as int] == k);
                }
            }
            assert(pdf_renders@ =~= all_loading::<H>(all.take(i + 1)));
        }
        i = i + 1;
    }
    assert(all.take(pdf_paths.len() as int) =~= all);
    jobs
}

} // verus!
