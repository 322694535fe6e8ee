use manga_reader::scanner::{
    cover_candidate, is_chapter_file, pick_cover, scanned_file, split_synopsis, COVER_CANDIDATES,
};

#[test]
fn chapter_extensions() {
    assert!(is_chapter_file("a.cbz"));
    assert!(is_chapter_file("a.cbr"));
    assert!(is_chapter_file("a.pdf"));
    assert!(is_chapter_file("Chapter 1.CBZ"));
    assert!(is_chapter_file("x.y.Pdf"));
    assert!(!is_chapter_file("a.zip"));
    assert!(!is_chapter_file("cbz"));
    assert!(!is_chapter_file(".cbz"));
    assert!(!is_chapter_file("a.cbz.bak"));
    assert!(!is_chapter_file("a.cbzz"));
    assert!(!is_chapter_file("a."));
    assert!(!is_chapter_file(""));
    assert!(is_chapter_file("..cbz"));
}

#[test]
fn cover_candidates_in_order() {
    let names: Vec<&str> = (0..COVER_CANDIDATES).map(cover_candidate).collect();
    assert_eq!(
        names,
        vec![
            "cover.jpg",
            "cover.jpeg",
            "cover.png",
            "thumbnail.jpg",
            "thumbnail.jpeg",
            "thumbnail.png",
            "poster.jpg",
            "poster.jpeg",
            "poster.png"
        ]
    );
}

#[test]
fn first_present_candidate_is_the_cover() {
    let present = |names: &[&str]| -> Vec<String> { names.iter().map(|s| s.to_string()).collect() };
    assert_eq!(pick_cover(&present(&["poster.png", "x.cbz", "cover.png"])), Some(2));
    assert_eq!(pick_cover(&present(&["thumbnail.jpeg", "poster.jpg"])), Some(4));
    assert_eq!(pick_cover(&present(&["cover.jpg"])), Some(0));
    assert_eq!(pick_cover(&present(&["Cover.jpg", "cover.webp"])), None);
    assert_eq!(pick_cover(&present(&[])), None);
}

#[test]
fn synopsis_with_source() {
    let (synopsis, source) = split_synopsis("A story.\nSource: https://example.com");
    assert_eq!(synopsis, "A story.");
    assert_eq!(source.as_deref(), Some("https://example.com"));
}

#[test]
fn synopsis_is_trimmed() {
    let (synopsis, source) = split_synopsis("  \n A story.\t\n\nSource:  http://x.org \n");
    assert_eq!(synopsis, "A story.");
    assert_eq!(source.as_deref(), Some("http://x.org"));
    let (unicode, _) = split_synopsis("\u{3000}\u{a0}texte\u{2003}");
    assert_eq!(unicode, "texte");
}

#[test]
fn source_must_start_with_http() {
    let (synopsis, source) = split_synopsis("Text\nSource: ftp://example.com");
    assert_eq!(synopsis, "Text");
    assert_eq!(source, None);
    let (_, empty) = split_synopsis("Text\nSource: ");
    assert_eq!(empty, None);
    let (_, upper) = split_synopsis("Text\nSource: HTTP://example.com");
    assert_eq!(upper, None);
}

#[test]
fn synopsis_without_source() {
    let (synopsis, source) = split_synopsis("Only text. Source: https://no.newline");
    assert_eq!(synopsis, "Only text. Source: https://no.newline");
    assert_eq!(source, None);
    let (empty, none) = split_synopsis("");
    assert_eq!(empty, "");
    assert_eq!(none, None);
}

#[test]
fn second_marker_ends_the_source() {
    let (synopsis, source) = split_synopsis("S\nSource: http://a\nSource: http://b");
    assert_eq!(synopsis, "S");
    assert_eq!(source.as_deref(), Some("http://a"));
}

#[test]
fn scanned_file_carries_what_it_is_given() {
    let f = scanned_file("S", "Chapter 1.cbz", "/r/S/Chapter 1.cbz", 5, 6, Some("/r/S/cover.png".to_string()), None);
    assert_eq!(f.series, "S");
    assert_eq!(f.file_name, "Chapter 1.cbz");
    assert_eq!(f.path, "/r/S/Chapter 1.cbz");
    assert_eq!((f.size, f.modified), (5, 6));
    assert_eq!(f.cover.as_deref(), Some("/r/S/cover.png"));
    assert_eq!(f.synopsis, None);
    assert_eq!(f.source_url, None);
    let g = scanned_file("S", "c.cbz", "/c.cbz", 0, 0, None, Some("x\nSource: nothing"));
    assert_eq!(g.synopsis.as_deref(), Some("x"));
    assert_eq!(g.source_url, None);
}
