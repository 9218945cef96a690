use pdf_organizer::pdf::{
    display_name_for, has_pdf_extension, keep_pdf_paths, number_pages, pdf_display_name,
    pdf_render_settings, schedule_pdf_renders, select_pdf_paths, PdfRenderState,
};
use pdf_organizer::pdf::{pdf_section_kind, PdfSectionKind, RenderedPdfPage};
use pdf_organizer::sorted_map::SortedTextMap;

#[test]
fn get_pdfs_in_folder_filters_non_pdf_files() {
    let folder = "/tmp/PDFOrganizer_filter_folder";
    let entries = vec![
        format!("{folder}/match.pdf"),
        format!("{folder}/skip.PDF"),
        format!("{folder}/skip.txt"),
    ];

    let pdfs = select_pdf_paths(entries);

    assert_eq!(pdfs.len(), 1);
    assert_eq!(
        std::path::Path::new(&pdfs[0])
            .file_name()
            .and_then(|name| name.to_str()),
        Some("match.pdf")
    );
}

#[test]
fn schedule_pdf_renders_marks_all_paths_loading() {
    let pdf_paths = vec!["one.pdf".to_string(), "two.pdf".to_string()];
    let mut pdf_renders: SortedTextMap<PdfRenderState<u32>> = SortedTextMap::new();
    pdf_renders.insert(
        "old.pdf".to_string(),
        PdfRenderState::Failed("old".to_string()),
    );

    let task = schedule_pdf_renders(&pdf_paths, &mut pdf_renders, 300, 9);

    assert_eq!(pdf_renders.len(), 2);
    assert!(!task.is_empty());
    assert!(pdf_paths
        .iter()
        .all(|path| matches!(pdf_renders.get(path), Some(PdfRenderState::Loading))));
    assert_eq!(task[1].pdf_path, "two.pdf");
    assert_eq!(task[1].render_width, 300);
    assert_eq!(task[1].generation, 9);
}

#[test]
fn schedule_pdf_renders_returns_none_for_empty_input() {
    let mut pdf_renders: SortedTextMap<PdfRenderState<u32>> = SortedTextMap::new();

    let task = schedule_pdf_renders(&Vec::new(), &mut pdf_renders, 300, 1);

    assert_eq!(task.len(), 0);
    assert!(pdf_renders.is_empty());
}

#[test]
fn pdf_extension_must_be_lowercase_and_follow_a_name() {
    assert!(has_pdf_extension("match.pdf"));
    assert!(has_pdf_extension("..pdf"));
    assert!(has_pdf_extension("archive.tar.pdf"));
    assert!(!has_pdf_extension(".pdf"));
    assert!(!has_pdf_extension("skip.PDF"));
    assert!(!has_pdf_extension("skip.Pdf"));
    assert!(!has_pdf_extension("notes.pdf.txt"));
    assert!(!has_pdf_extension("pdf"));
    assert!(!has_pdf_extension(""));
}

#[test]
fn keep_pdf_paths_follows_given_file_names_in_order() {
    let paths = vec![
        "/a/x.pdf".to_string(),
        "/a/y".to_string(),
        "/a/z.pdf".to_string(),
        "/a/..".to_string(),
    ];
    let names = vec![
        Some("x.pdf".to_string()),
        Some("y".to_string()),
        Some("z.pdf".to_string()),
        None,
    ];

    let kept = keep_pdf_paths(paths, &names);

    assert_eq!(kept, vec!["/a/x.pdf".to_string(), "/a/z.pdf".to_string()]);
}

#[test]
fn select_pdf_paths_keeps_order_and_skips_hidden_extension() {
    let entries = vec![
        "/docs/b.pdf".to_string(),
        "/docs/.pdf".to_string(),
        "/docs/a.pdf".to_string(),
        "/docs/c.pdfx".to_string(),
    ];

    let pdfs = select_pdf_paths(entries);

    assert_eq!(pdfs, vec!["/docs/b.pdf".to_string(), "/docs/a.pdf".to_string()]);
}

#[test]
fn pdf_display_name_uses_file_name() {
    assert_eq!(pdf_display_name("/tmp/folder/report.pdf"), "report.pdf");
    assert_eq!(pdf_display_name("sample.pdf"), "sample.pdf");
}

#[test]
fn pdf_display_name_falls_back_when_there_is_no_file_name() {
    assert_eq!(pdf_display_name("/tmp/.."), "Unnamed PDF");
    assert_eq!(pdf_display_name("/"), "Unnamed PDF");
    assert_eq!(display_name_for(None), "Unnamed PDF");
    assert_eq!(display_name_for(Some("x.pdf".to_string())), "x.pdf");
}

#[test]
fn pages_are_numbered_from_one_in_order() {
    let pages = number_pages(vec!['a', 'b', 'c']);

    assert_eq!(pages.len(), 3);
    for (index, page) in pages.iter().enumerate() {
        assert_eq!(page.page_number, index + 1);
    }
    assert_eq!(pages[2].handle, 'c');
    assert!(number_pages(Vec::<u8>::new()).is_empty());
}

#[test]
fn render_settings_cap_height_and_rotate_landscape() {
    let settings = pdf_render_settings(852);

    assert_eq!(settings.target_width, 852);
    assert_eq!(settings.maximum_height, 1080);
    assert!(settings.rotate_landscape);
    assert_eq!(pdf_render_settings(u16::MAX).target_width, 65535);
}

#[test]
fn pdf_display_name_of_plain_and_empty_paths() {
    assert_eq!(pdf_display_name("docs/loaded.pdf"), "loaded.pdf");
    assert_eq!(pdf_display_name("loaded.pdf"), "loaded.pdf");
    assert_eq!(pdf_display_name(""), "Unnamed PDF");
    assert_eq!(pdf_display_name(".."), "Unnamed PDF");
}

#[test]
fn select_pdf_paths_on_nested_relative_paths() {
    let pdfs = select_pdf_paths(vec![
        "a/b/one.pdf".to_string(),
        "a/b/two.PDF".to_string(),
        "three.pdf".to_string(),
        "a/.pdf".to_string(),
        "".to_string(),
    ]);

    assert_eq!(pdfs, vec!["a/b/one.pdf".to_string(), "three.pdf".to_string()]);
}

#[test]
fn pdf_display_name_of_root_and_trailing_separator() {
    assert_eq!(pdf_display_name("/"), "Unnamed PDF");
    assert_eq!(pdf_display_name("a/b/"), "b");
    assert_eq!(pdf_display_name("a/b/.."), "Unnamed PDF");
}

#[test]
fn pdf_display_name_of_windows_style_path_ends_with_its_name() {
    let shown = pdf_display_name("C:\\Users\\You\\scan.pdf");

    assert!(shown == "scan.pdf" || shown.ends_with("\\scan.pdf"), "{shown}");
}

#[test]
fn select_pdf_paths_on_windows_style_paths() {
    let pdfs = select_pdf_paths(vec![
        "C:\\Users\\You\\scan.pdf".to_string(),
        "C:\\Users\\You\\notes.txt".to_string(),
        "C:\\Users\\You\\SCAN.PDF".to_string(),
        "D:\\archive\\report.pdf".to_string(),
    ]);

    assert_eq!(
        pdfs,
        vec![
            "C:\\Users\\You\\scan.pdf".to_string(),
            "D:\\archive\\report.pdf".to_string(),
        ]
    );
}

#[test]
fn names_with_colons_are_file_names() {
    assert_eq!(pdf_display_name("/data/10:30/sample.pdf"), "sample.pdf");
    assert_eq!(pdf_display_name("dir/a:b.pdf"), "a:b.pdf");

    let pdfs = select_pdf_paths(vec![
        "dir/a:b.pdf".to_string(),
        "/data/10:30/notes.txt".to_string(),
        "/data/10:30/scan.pdf".to_string(),
    ]);
    assert_eq!(
        pdfs,
        vec!["dir/a:b.pdf".to_string(), "/data/10:30/scan.pdf".to_string()]
    );
}

#[test]
fn pdf_section_kind_follows_render_state() {
    let mut renders: SortedTextMap<PdfRenderState<u8>> = SortedTextMap::new();
    assert!(matches!(pdf_section_kind(&renders, "a.pdf"), PdfSectionKind::Rendering));

    renders.insert("a.pdf".to_string(), PdfRenderState::Loading);
    assert!(matches!(pdf_section_kind(&renders, "a.pdf"), PdfSectionKind::Rendering));

    renders.insert("a.pdf".to_string(), PdfRenderState::Loaded(Vec::new()));
    assert!(matches!(pdf_section_kind(&renders, "a.pdf"), PdfSectionKind::NoPages));

    renders.insert(
        "a.pdf".to_string(),
        PdfRenderState::Loaded(vec![RenderedPdfPage { page_number: 1, handle: 7 }]),
    );
    assert!(matches!(pdf_section_kind(&renders, "a.pdf"), PdfSectionKind::Pages));

    renders.insert("a.pdf".to_string(), PdfRenderState::Failed("bad pdf".to_string()));
    assert!(matches!(pdf_section_kind(&renders, "a.pdf"), PdfSectionKind::Failed));
}
