use nhentai_archivist::api_response::{Tag, ImageType};
use nhentai_archivist::config::TitleType;
use nhentai_archivist::error::HentaiNewError;
use nhentai_archivist::hentai::{
    after_download_attempt, cbz_title, existing_path_decision, library_split_fits, metadata_source, AttemptOutcome, ExistingPath, Hentai,
    HentaiTableRow, MetadataSource, PathKind,
};
use nhentai_archivist::search_api::hentai_table_row;
use nhentai_archivist::api_response::{HentaiSearchResponse, Image, Images, Title};

fn row(page_types: &str, num_pages: u16, english: Option<&str>) -> HentaiTableRow {
    HentaiTableRow {
        id: 177013,
        media_id: 987654,
        num_pages,
        page_types: page_types.to_owned(),
        scanlator: None,
        title_english: english.map(|s| s.to_owned()),
        title_japanese: Some("日本語".to_owned()),
        title_pretty: Some(String::new()),
        upload_date: 1_476_835_200,
    }
}

#[test]
fn builds_urls_filenames_and_path() {
    let tags = vec![Tag { id: 1, name: "n".to_owned(), tag_type: "tag".to_owned(), url: "/tag/n/".to_owned() }];
    let h = Hentai::new(177013, row("jpg", 3, Some("A: Title?")), tags.clone(), "./hentai/", 0, TitleType::English).unwrap();
    assert_eq!(h.cbz_filepath, "./hentai/177013 A Title.cbz");
    assert_eq!(h.gallery_url, "https://nhentai.net/g/177013/");
    assert_eq!(h.images_url, vec![
        "https://i.nhentai.net/galleries/987654/1.jpg",
        "https://i.nhentai.net/galleries/987654/2.png",
        "https://i.nhentai.net/galleries/987654/3.gif",
    ]);
    assert_eq!(h.images_filename, vec!["177013-00001.jpg", "177013-00002.png", "177013-00003.gif"]);
    assert_eq!(h.tags, tags);
    assert_eq!(h.num_pages, 3);
    assert_eq!(h.image_filepath(1), "./hentai/177013/177013-00002.png");
    assert_eq!(h.images_dir(), "./hentai/177013");
}

#[test]
fn split_library_directory() {
    let h = Hentai::new(177013, row("j", 1, Some("T")), vec![], "./lib/", 10000, TitleType::English).unwrap();
    assert_eq!(h.cbz_filepath, "./lib/170000~179999/177013 T.cbz");
}

#[test]
fn title_type_chooses_title_with_english_fallback() {
    let j = Hentai::new(1, row("j", 1, Some("E")), vec![], "", 0, TitleType::Japanese).unwrap();
    assert_eq!(j.cbz_filepath, "1 日本語.cbz");
    let p = Hentai::new(1, row("j", 1, Some("E")), vec![], "", 0, TitleType::Pretty).unwrap();
    assert_eq!(p.cbz_filepath, "1 E.cbz");
    let none = Hentai::new(1, row("j", 1, None), vec![], "", 0, TitleType::English).unwrap();
    assert_eq!(none.cbz_filepath, "1 .cbz");
}

#[test]
fn length_mismatch_is_an_error() {
    match Hentai::new(1, row("jj", 3, Some("E")), vec![], "", 0, TitleType::English) {
        Err(HentaiNewError::HentaiLengthInconsistency { page_types, num_pages }) => {
            assert_eq!((page_types, num_pages), (2, 3));
        }
        _ => panic!("expected a length inconsistency"),
    }
}

#[test]
fn long_titles_are_cut_at_grapheme_boundaries() {
    let title = "e\u{301}".repeat(100); // 100 graphemes of 3 bytes
    let cut = cbz_title(&title);
    assert_eq!(cut.len(), 243);
    assert_eq!(cut, "e\u{301}".repeat(81));
    let short = "x".repeat(243);
    assert_eq!(cbz_title(&short), short);
    assert_eq!(cbz_title("a/b\\c"), "abc");
}

#[test]
fn checked_construction_agrees() {
    let r = Hentai::new_checked(1, row("j", 1, Some("E")), vec![], "", 0, TitleType::English);
    assert_eq!(r.unwrap().unwrap().cbz_filepath, "1 E.cbz");
}

#[test]
fn split_overflow_is_refused_by_checked_construction() {
    assert!(library_split_fits(u32::MAX, 0));
    assert!(library_split_fits(4_294_967_294, 3));
    assert!(!library_split_fits(u32::MAX, 2));
    assert!(!library_split_fits(u32::MAX, 1));
    assert!(Hentai::new_checked(u32::MAX, row("j", 1, Some("E")), vec![], "", 2, TitleType::English).is_none());
    // a length error comes before the library directory is computed
    match Hentai::new_checked(u32::MAX, row("jj", 1, Some("E")), vec![], "", 2, TitleType::English) {
        Some(Err(HentaiNewError::HentaiLengthInconsistency { page_types, num_pages })) => assert_eq!((page_types, num_pages), (2, 1)),
        _ => panic!("expected a length inconsistency"),
    }
}

#[test]
fn row_of_response_reads_back() {
    let page = |t| Image { h: 1, t, w: 1 };
    let r = HentaiSearchResponse {
        id: 5,
        images: Images { cover: page(ImageType::Jpg), pages: vec![page(ImageType::Webp), page(ImageType::Gif)], thumbnail: page(ImageType::Jpg) },
        media_id: 50,
        num_favorites: 0,
        num_pages: 2,
        scanlator: None,
        tags: vec![],
        title: Title { english: Some("X".to_owned()), japanese: None, pretty: None },
        upload_date: 0,
    };
    let row = hentai_table_row(r);
    assert_eq!(row.page_types, "wg");
    let h = Hentai::new(5, row, vec![], "", 0, TitleType::English).unwrap();
    assert_eq!(h.images_filename, vec!["5-00001.webp", "5-00002.gif"]);
}

#[test]
fn download_decisions() {
    assert_eq!(existing_path_decision(PathKind::File), ExistingPath::Skip);
    assert_eq!(existing_path_decision(PathKind::Directory), ExistingPath::Blocked);
    assert_eq!(existing_path_decision(PathKind::Missing), ExistingPath::Download);
    assert_eq!(existing_path_decision(PathKind::Other), ExistingPath::Download);
    assert_eq!(after_download_attempt(1, true), AttemptOutcome::Pack);
    assert_eq!(after_download_attempt(4, false), AttemptOutcome::Retry);
    assert_eq!(after_download_attempt(5, false), AttemptOutcome::GiveUp);
}

#[test]
fn metadata_comes_from_database_first() {
    assert_eq!(metadata_source(true), MetadataSource::Database);
    assert_eq!(metadata_source(false), MetadataSource::Api);
}
