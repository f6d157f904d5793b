use tiktok_batch::extract::{derive_owner_id, extract_video_urls, ExtractError};
use tiktok_batch::pipeline::{list_file_urls, plan_page, plan_pages};

#[test]
fn owner_is_taken_from_title() {
    let page = "<html><head><title>Some Name (@some_name)'s videos | TikTok</title></head></html>";
    assert_eq!(derive_owner_id(page), Ok("some_name".to_string()));
}

#[test]
fn owner_with_dot_is_taken_whole() {
    let page = "<title>Jane (@jane.doe) on TikTok</title>";
    assert_eq!(derive_owner_id(page), Ok("jane.doe".to_string()));
}

#[test]
fn first_title_marker_wins() {
    let page = "<title>A (@first) B (@second)</title>";
    assert_eq!(derive_owner_id(page), Ok("first".to_string()));
}

#[test]
fn missing_title_is_owner_not_found() {
    let page = "<html><body>https://www.tiktok.com/@alice/video/1</body></html>";
    assert_eq!(derive_owner_id(page), Err(ExtractError::OwnerNotFound));
}

#[test]
fn title_without_handle_is_owner_not_found() {
    assert_eq!(derive_owner_id("<title>Just a page</title>"), Err(ExtractError::OwnerNotFound));
    assert_eq!(derive_owner_id("<title>Name (@)</title>"), Err(ExtractError::OwnerNotFound));
    assert_eq!(derive_owner_id(""), Err(ExtractError::OwnerNotFound));
}

#[test]
fn title_spanning_lines_names_owner() {
    let page = "<title>Name\n (@alice)\nmore</title>";
    assert_eq!(derive_owner_id(page), Ok("alice".to_string()));
    assert_eq!(derive_owner_id("<title>\n (@h)</title>"), Ok("h".to_string()));
}

#[test]
fn unicode_handle_is_taken_whole() {
    let page = "<title>José (@josé_1.x) on TikTok</title>";
    assert_eq!(derive_owner_id(page), Ok("josé_1.x".to_string()));
}

#[test]
fn handle_needs_closing_title() {
    assert_eq!(derive_owner_id("<title>A (@alice)"), Err(ExtractError::OwnerNotFound));
}

#[test]
fn unicode_digits_form_a_video_number() {
    let page = "https://www.tiktok.com/@al/video/\u{661}\u{662}3 end";
    let urls = extract_video_urls(page, "al").unwrap();
    assert_eq!(urls, vec!["https://www.tiktok.com/@al/video/\u{661}\u{662}3".to_string()]);
}

#[test]
fn interleaved_owners_keep_only_requested() {
    let page = "x https://www.tiktok.com/@alice/video/1 y https://www.tiktok.com/@bob/video/2 \
                z https://www.tiktok.com/@alice/video/3 https://www.tiktok.com/@bob/video/4";
    let urls = extract_video_urls(page, "alice").unwrap();
    assert_eq!(
        urls,
        vec![
            "https://www.tiktok.com/@alice/video/1".to_string(),
            "https://www.tiktok.com/@alice/video/3".to_string(),
        ]
    );
    let urls = extract_video_urls(page, "bob").unwrap();
    assert_eq!(
        urls,
        vec![
            "https://www.tiktok.com/@bob/video/2".to_string(),
            "https://www.tiktok.com/@bob/video/4".to_string(),
        ]
    );
}

#[test]
fn dot_in_owner_is_literal() {
    let page = "https://www.tiktok.com/@janexdoe/video/5 https://www.tiktok.com/@jane.doe/video/6";
    let urls = extract_video_urls(page, "jane.doe").unwrap();
    assert_eq!(urls, vec!["https://www.tiktok.com/@jane.doe/video/6".to_string()]);
}

#[test]
fn link_needs_digits_and_takes_them_all() {
    let page = "https://www.tiktok.com/@al/video/ https://www.tiktok.com/@al/video/0123456789x";
    let urls = extract_video_urls(page, "al").unwrap();
    assert_eq!(urls, vec!["https://www.tiktok.com/@al/video/0123456789".to_string()]);
}

#[test]
fn duplicates_are_kept() {
    let page = "https://www.tiktok.com/@al/video/7 https://www.tiktok.com/@al/video/7";
    let urls = extract_video_urls(page, "al").unwrap();
    assert_eq!(urls.len(), 2);
    assert_eq!(urls[0], urls[1]);
}

#[test]
fn no_links_is_empty() {
    assert_eq!(extract_video_urls("<title>t (@al)</title>", "al"), Ok(vec![]));
}

#[test]
fn end_to_end_page() {
    let page = "<title>Alice's Page (@alice123)</title>...https://www.tiktok.com/@alice123/video/111...\
                https://www.tiktok.com/@bob/video/222...https://www.tiktok.com/@alice123/video/333";
    let plan = plan_page(page).unwrap();
    assert_eq!(plan.owner, "alice123");
    assert_eq!(
        plan.urls,
        vec![
            "https://www.tiktok.com/@alice123/video/111".to_string(),
            "https://www.tiktok.com/@alice123/video/333".to_string(),
        ]
    );
}

#[test]
fn batch_isolates_bad_page() {
    let pages = vec![
        "<html>no title here https://www.tiktok.com/@x/video/9</html>".to_string(),
        "<title>B (@bee)</title> https://www.tiktok.com/@bee/video/42".to_string(),
    ];
    let plans = plan_pages(&pages);
    assert_eq!(plans.len(), 2);
    assert!(matches!(plans[0], Err(ExtractError::OwnerNotFound)));
    let good = plans[1].as_ref().unwrap();
    assert_eq!(good.owner, "bee");
    assert_eq!(good.urls, vec!["https://www.tiktok.com/@bee/video/42".to_string()]);
}

#[test]
fn list_file_lines_are_verbatim() {
    let text = "https://a/1\r\nhttps://b/2\n\nhttps://c/3\n";
    assert_eq!(
        list_file_urls(text),
        vec![
            "https://a/1".to_string(),
            "https://b/2".to_string(),
            String::new(),
            "https://c/3".to_string(),
        ]
    );
    assert_eq!(list_file_urls(""), Vec::<String>::new());
    assert_eq!(list_file_urls("one"), vec!["one".to_string()]);
}
