use nhentai_archivist::api_response::{
    try_str_to_u32, HentaiSearchResponse, IdValue, IdValueError, Image, ImageType, Images, Tag, TagSearchResponse,
    Title,
};

fn image(t: ImageType) -> Image {
    Image { h: 100, t, w: 70 }
}

fn tag(id: u32, name: &str) -> Tag {
    Tag { id, name: name.to_owned(), tag_type: "tag".to_owned(), url: format!("/tag/{name}/") }
}

fn response(id: u32, pages: Vec<ImageType>, tags: Vec<Tag>) -> HentaiSearchResponse {
    HentaiSearchResponse {
        id,
        images: Images { cover: image(ImageType::Jpg), pages: pages.into_iter().map(image).collect(), thumbnail: image(ImageType::Png) },
        media_id: id * 10,
        num_favorites: 3,
        num_pages: 2,
        scanlator: Some(String::new()),
        tags,
        title: Title { english: Some("English".to_owned()), japanese: Some(String::new()), pretty: None },
        upload_date: 1_700_000_000,
    }
}

#[test]
fn image_type_reads_short_and_long_forms() {
    assert_eq!(ImageType::from_str("g"), Ok(ImageType::Gif));
    assert_eq!(ImageType::from_str("JPG"), Ok(ImageType::Jpg));
    assert_eq!(ImageType::from_str("  Png\n"), Ok(ImageType::Png));
    assert_eq!(ImageType::from_str("\u{3000}webp"), Ok(ImageType::Webp));
    assert_eq!(ImageType::from_str("w"), Ok(ImageType::Webp));
}

#[test]
fn image_type_refuses_other_strings() {
    assert_eq!(ImageType::from_str("jpeg"), Err("Invalid image type: \"jpeg\"".to_owned()));
    assert_eq!(ImageType::from_str(""), Err("Invalid image type: \"\"".to_owned()));
    assert_eq!(ImageType::from_str("g i f"), Err("Invalid image type: \"g i f\"".to_owned()));
}

#[test]
fn image_type_names() {
    let all = [ImageType::Gif, ImageType::Jpg, ImageType::Png, ImageType::Webp];
    let short: Vec<String> = all.iter().map(|t| t.short_name()).collect();
    let long: Vec<String> = all.iter().map(|t| t.long_name()).collect();
    assert_eq!(short, ["g", "j", "p", "w"]);
    assert_eq!(long, ["gif", "jpg", "png", "webp"]);
    for t in all {
        assert_eq!(ImageType::from_str(&t.short_name()), Ok(t));
        assert_eq!(ImageType::from_str(&t.long_name()), Ok(t));
    }
}

#[test]
fn identifiers_from_numbers_and_strings() {
    assert_eq!(try_str_to_u32(&IdValue::Number(Some(177013))), Ok(177013));
    assert_eq!(try_str_to_u32(&IdValue::Number(Some(4_294_967_295))), Ok(u32::MAX));
    assert_eq!(try_str_to_u32(&IdValue::Number(Some(4_294_967_296))), Err(IdValueError::NumberNotU32));
    assert_eq!(try_str_to_u32(&IdValue::Text("4294967296".to_owned())), Err(IdValueError::StringNotU32));
    assert_eq!(try_str_to_u32(&IdValue::Number(None)), Err(IdValueError::NumberNotU64));
    assert_eq!(try_str_to_u32(&IdValue::Text("1234".to_owned())), Ok(1234));
    assert_eq!(try_str_to_u32(&IdValue::Text("12x".to_owned())), Err(IdValueError::StringNotU32));
    assert_eq!(try_str_to_u32(&IdValue::Other), Err(IdValueError::NeitherNumberNorString));
}

#[test]
fn db_batch_leaves_out_galleries_without_pages() {
    let responses = vec![
        response(1, vec![ImageType::Jpg, ImageType::Png], vec![tag(10, "a"), tag(11, "b")]),
        response(2, vec![], vec![tag(12, "c")]),
        response(3, vec![ImageType::Webp], vec![tag(10, "a")]),
    ];
    let batch = TagSearchResponse::db_write_batch(&responses);
    assert_eq!(batch.hentai.iter().map(|r| r.id).collect::<Vec<_>>(), vec![1, 3]);
    assert_eq!(batch.hentai[0].page_types, "jp");
    assert_eq!(batch.hentai[0].cover_type, "j");
    assert_eq!(batch.hentai[0].scanlator, None);
    assert_eq!(batch.hentai[0].title_english, Some("English".to_owned()));
    assert_eq!(batch.hentai[0].title_japanese, None);
    assert_eq!(batch.hentai[1].page_types, "w");
    assert_eq!(batch.tags.iter().map(|t| t.id).collect::<Vec<_>>(), vec![10, 11, 12, 10]);
    assert_eq!(batch.hentai_tag_delete_ids, vec![1, 2, 3]);
    assert_eq!(batch.hentai_tags, vec![(1, 10), (1, 11), (3, 10)]);
    let st = batch.statements();
    assert!(st.hentai && st.tags && st.hentai_tag_delete && st.hentai_tag_insert);
}

#[test]
fn db_statements_with_no_values_are_left_out() {
    let none = TagSearchResponse::db_write_batch(&vec![]).statements();
    assert!(!none.hentai && !none.tags && !none.hentai_tag_delete && !none.hentai_tag_insert);
    let without_pages = TagSearchResponse::db_write_batch(&vec![response(2, vec![], vec![tag(12, "c")])]).statements();
    assert!(!without_pages.hentai && without_pages.tags && without_pages.hentai_tag_delete && !without_pages.hentai_tag_insert);
    let without_tags = TagSearchResponse::db_write_batch(&vec![response(3, vec![ImageType::Jpg], vec![])]).statements();
    assert!(without_tags.hentai && !without_tags.tags && without_tags.hentai_tag_delete && !without_tags.hentai_tag_insert);
}

#[test]
fn tag_duplicate_is_equal() {
    let t = tag(5, "x");
    assert_eq!(t.duplicate(), t);
}
