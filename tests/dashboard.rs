use small_bin::dashboard::{
    decimal_text, extract_links, media_link, render_history, render_history_with,
    signed_decimal_text, split_links, IMG_NO_MEDIA,
};
use small_bin::database::History;

fn entry(content: &str, ts: i64, file: &str, id: &str) -> History {
    History {
        content: String::from(content),
        timestamp: ts,
        file: String::from(file),
        uuid: String::from(id),
    }
}

#[test]
fn links_are_split_on_spaces_without_empty_ones() {
    assert_eq!(split_links("a  b c "), vec!["a", "b", "c"]);
    assert!(split_links("").is_empty());
    assert_eq!(split_links("https://h/x.png"), vec!["https://h/x.png"]);
}

#[test]
fn media_links_by_ending() {
    assert!(media_link("https://h/a.png"));
    assert!(media_link("https://h/a.jpeg"));
    assert!(media_link("https://h/a.gif"));
    assert!(!media_link("https://h/a.txt"));
    assert!(!media_link("pn"));
}

#[test]
fn link_html_for_picture_and_other() {
    let links = vec![String::from("https://h/a.png"), String::new(), String::from("https://h/b.txt")];
    let html = extract_links("T", &links, "/f");
    let expected = format!(
        "<a href=\"https://h/a.png\"><img src=\"https://h/a.png\"></img><span class=\"caption\">T - /f</span></a> <a href=\"https://h/b.txt\"><img src=\"{IMG_NO_MEDIA}\"><span class=\"caption\">T - /f</span></div></a>"
    );
    assert_eq!(html, expected);
}

#[test]
fn decimal_texts() {
    assert_eq!(decimal_text(0), "0");
    assert_eq!(decimal_text(1234567890), "1234567890");
    assert_eq!(decimal_text(u64::MAX), u64::MAX.to_string());
    assert_eq!(signed_decimal_text(-42), "-42");
    assert_eq!(signed_decimal_text(i64::MIN), i64::MIN.to_string());
}

#[test]
fn page_lists_articles_and_count() {
    let history = vec![entry("https://h/a.png", 2, "/a.png", "u2"), entry("https://h/b.png", 1, "/b.png", "u1")];
    let stamps = vec![String::from("S2"), String::from("S1")];
    let page = render_history_with(&history, &stamps, "1.2.3");
    assert!(page.starts_with("<html>\n<head>"));
    assert!(page.contains("history of: 2</pre>"));
    assert!(page.contains("<article id=\"u2\" class=\"text-center\"><a href=\"https://h/a.png\"><img src=\"https://h/a.png\"></img><span class=\"caption\">S2 - /a.png</span></a></article> <article id=\"u1\""));
    assert!(page.contains("version: 1.2.3 - "));
    assert!(page.ends_with("</html>"));
}

#[test]
fn page_shows_times_as_dates() {
    let history = vec![entry("https://h/a.png", 1_700_000_000, "/a.png", "u")];
    let page = render_history(&history, "1");
    assert!(!page.contains("1700000000 - /a.png"));
    assert!(page.contains("2023-11-1"));
}
