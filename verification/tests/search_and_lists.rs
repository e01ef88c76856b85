use nhentai_archivist::config::{Config, TitleType};
use nhentai_archivist::get_hentai_id_list::{
    format_downloadme, id_list_next, parse_console_input, parse_downloadme, remove_dontdownloadme, IdListAction,
    IdListSource,
};
use nhentai_archivist::main_inner::{after_round, connection_test_passed, cookie_header, on_round_failure, AfterRound, OnRoundFailure};
use nhentai_archivist::search_api::{
    collect_search_ids, hentai_answer_ok, hentai_search_url, sort_ids, tag_page_answer, tag_search_next, tag_search_start,
    tag_search_url, PageAnswer, TagSearchStep,
};

#[test]
fn search_urls() {
    assert_eq!(hentai_search_url("https://nhentai.net/api/gallery/", 177013), "https://nhentai.net/api/gallery/177013");
    let tags = vec!["tag:\"ffm threesome\"".to_owned(), "-tag:\"mind control\"".to_owned()];
    assert_eq!(
        tag_search_url("https://nhentai.net/api/galleries/search", &tags, 3),
        "https://nhentai.net/api/galleries/search?query=tag:\"ffm threesome\"+-tag:\"mind control\"&page=3"
    );
    assert_eq!(tag_search_url("u", &vec![], 1), "u?query=&page=1");
}

#[test]
fn status_decisions() {
    assert_eq!(tag_page_answer(429), PageAnswer::RetryLater);
    assert_eq!(tag_page_answer(404), PageAnswer::Failed);
    assert_eq!(tag_page_answer(200), PageAnswer::Read);
    assert!(hentai_answer_ok(200));
    assert!(!hentai_answer_ok(403));
    assert!(connection_test_passed(404) && connection_test_passed(429) && connection_test_passed(200));
    assert!(!connection_test_passed(403));
}

#[test]
fn tag_search_walk() {
    assert_eq!(tag_search_start(), TagSearchStep::TryPage(1));
    assert_eq!(tag_search_next(1, Some(7)), TagSearchStep::SearchPages { from: 2, to: 7 });
    assert_eq!(tag_search_next(3, None), TagSearchStep::TryPage(4));
    assert_eq!(tag_search_next(10, None), TagSearchStep::GiveUp);
    assert_eq!(tag_search_next(10, Some(10)), TagSearchStep::SearchPages { from: 11, to: 10 });
}

/// Walks a tag search through the outcomes of the pages tried alone.
fn walk(outcomes: &[Option<u32>]) -> (TagSearchStep, usize) {
    let mut step = tag_search_start();
    let mut tried = 0;
    while let TagSearchStep::TryPage(p) = step {
        step = tag_search_next(p, outcomes[tried]);
        tried += 1;
    }
    (step, tried)
}

#[test]
fn tag_search_decides_within_ten_pages() {
    assert_eq!(walk(&[None, None, Some(7)]), (TagSearchStep::SearchPages { from: 4, to: 7 }, 3));
    assert_eq!(walk(&[Some(1)]), (TagSearchStep::SearchPages { from: 2, to: 1 }, 1));
    assert_eq!(walk(&[None; 12]), (TagSearchStep::GiveUp, 10));
    let mut last = [None; 10];
    last[9] = Some(30);
    assert_eq!(walk(&last), (TagSearchStep::SearchPages { from: 11, to: 30 }, 10));
}

#[test]
fn gathered_ids_are_sorted() {
    let got = collect_search_ids(&vec![5, 3], &vec![Some(vec![9, 1]), None, Some(vec![3])]);
    assert_eq!(got, vec![1, 3, 3, 5, 9]);
    assert_eq!(sort_ids(&vec![]), Vec::<u32>::new());
}

#[test]
fn downloadme_reading_and_writing() {
    assert_eq!(parse_downloadme("177013\r\n\nabc\n42\n +7\n+8"), vec![177013, 42, 8]);
    assert_eq!(parse_downloadme("5\r"), Vec::<u32>::new());
    let ids = vec![1, 22, 333];
    let text = format_downloadme(&ids);
    assert_eq!(text, "1\n22\n333");
    assert_eq!(parse_downloadme(&text), ids);
    assert_eq!(format_downloadme(&vec![]), "");
}

#[test]
fn console_input() {
    let r = parse_console_input("  12 abc\t34  99999999999 \n");
    assert_eq!(r.ids, vec![12, 34]);
    assert_eq!(r.rejected, vec!["abc".to_owned(), "99999999999".to_owned()]);
}

#[test]
fn dontdownloadme_takes_precedence() {
    assert_eq!(remove_dontdownloadme(&vec![1, 2, 3, 2, 4], &vec![2, 4]), vec![1, 3]);
}

#[test]
fn id_list_order_of_sources() {
    assert_eq!(id_list_next(IdListSource::Downloadme, true, true), IdListAction::Download);
    assert_eq!(id_list_next(IdListSource::Downloadme, false, true), IdListAction::SearchByTag);
    assert_eq!(id_list_next(IdListSource::Downloadme, false, false), IdListAction::AskConsole);
    assert_eq!(id_list_next(IdListSource::TagSearch, true, true), IdListAction::SaveThenDownload);
    assert_eq!(id_list_next(IdListSource::TagSearch, false, true), IdListAction::AskConsole);
    assert_eq!(id_list_next(IdListSource::Console, false, false), IdListAction::AskConsole);
}

#[test]
fn round_decisions_and_cookies() {
    assert_eq!(on_round_failure(false), OnRoundFailure::Abort);
    assert_eq!(on_round_failure(true), OnRoundFailure::SkipRound);
    assert_eq!(after_round(false), AfterRound::Exit);
    assert_eq!(after_round(true), AfterRound::CleanUpAndSleep);
    assert_eq!(cookie_header("cf", "tok"), "cf_clearance=cf; csrftoken=tok");
}

#[test]
fn config_defaults() {
    let c = Config::default();
    assert_eq!(c.LIBRARY_PATH, "./hentai/");
    assert_eq!(c.DOWNLOADME_FILEPATH.as_deref(), Some("./config/downloadme.txt"));
    assert_eq!(c.SLEEP_INTERVAL, Some(50000));
    assert_eq!(c.library_split(), 0);
    assert!(c.cleanup_temporary_files());
    assert_eq!(c.download_workers(), 5);
    assert_eq!(c.filename_title_type(), TitleType::English);
    assert!(!c.server_mode());
    assert_eq!(TitleType::default(), TitleType::English);
    let mut w = Config::default();
    w.DOWNLOAD_WORKERS = Some(0);
    assert_eq!(w.download_workers(), 1);
    w.DOWNLOAD_WORKERS = Some(3);
    assert_eq!(w.download_workers(), 3);
}
