use hnews::dom::{Elem, Page, Row};
use hnews::fetch::{MAX_POSTS, PostFetcher, extract_posts, fetch_posts};
use hnews::json::{post_json, posts_json};
use hnews::post::Post;

fn elem(name: &str, classes: &[&str], href: Option<&str>, text: &str) -> Elem {
    Elem {
        name: name.to_string(),
        classes: classes.iter().map(|c| c.to_string()).collect(),
        href: href.map(|h| h.to_string()),
        text: text.to_string(),
    }
}

/// The story row and metadata row of one listed post.
fn post_rows(
    rank: usize,
    title: &str,
    uri: &str,
    author: Option<&str>,
    points: Option<usize>,
    comments: Option<usize>,
) -> Vec<Row> {
    let story_row = Row {
        name: Some("tr".to_string()),
        classes: vec!["athing".to_string()],
        elements: vec![
            elem("span", &["rank"], None, &format!("{}.", rank)),
            elem("a", &["storylink"], Some(uri), title),
        ],
    };
    let mut meta_elements = vec![elem("td", &["subtext"], None, "")];
    if let Some(p) = points {
        meta_elements.push(elem("span", &["score"], None, &format!("{} points", p)));
    }
    if let Some(a) = author {
        meta_elements.push(elem("a", &["hnuser"], None, a));
    }
    if let Some(c) = comments {
        meta_elements.push(elem("a", &[], None, &format!("{}\u{a0}comments", c)));
    }
    let meta_row = Row { name: Some("tr".to_string()), classes: vec![], elements: meta_elements };
    vec![story_row, meta_row]
}

/// A fixture page of thirty posts ranked `30 * (page_num - 1) + 1` onward,
/// with a few posts pinned to the reference values.
fn fixture_page(page_num: usize) -> Page {
    let mut rows = Vec::new();
    for slot in 0..30 {
        let rank = 30 * (page_num - 1) + slot + 1;
        let mut pair = match rank {
            1 => post_rows(
                1,
                "Words that do Handstands",
                "http://hardmath123.github.io/ambigrams.html",
                Some("hardmath123"),
                Some(82),
                Some(14),
            ),
            2 => post_rows(
                2,
                "Possible detection of a black hole with a mass that was thought to be impossible",
                "https://www.quantamagazine.org/possible-detection-of-a-black-hole-so-big-it-should-not-exist-20190828/",
                Some("theafh"),
                Some(58),
                Some(35),
            ),
            3 => post_rows(
                3,
                "Lessons from Stripe",
                "https://markmcgranaghan.com/lessons-from-stripe",
                Some("rspivak"),
                Some(110),
                Some(30),
            ),
            12 => post_rows(
                12,
                "Mimir (YC S15) Is Hiring a Product Designer to Help Us Improve CS Education",
                "https://hire.withgoogle.com/public/jobs/mimirhqcom/view/P_AAAAAADAACHKrbvKW9X25u",
                None,
                None,
                None,
            ),
            73 => post_rows(
                73,
                "Anthony Levandowski Charged with Theft of Trade Secrets",
                "https://www.nytimes.com/2019/08/27/technology/google-trade-secrets-levandowski.html",
                Some("coloneltcb"),
                Some(440),
                Some(339),
            ),
            _ => post_rows(
                rank,
                &format!("Story {}", rank),
                &format!("https://example.com/story-{}", rank),
                Some(&format!("user{}", rank)),
                Some(rank * 2),
                Some(rank % 7),
            ),
        };
        rows.append(&mut pair);
    }
    Page { rows }
}

fn fixture_pages(n: usize) -> Vec<Page> {
    (1..=n).map(fixture_page).collect()
}

#[test]
fn fetch_top_3() {
    let posts = fetch_posts(3, &fixture_pages(3)).expect("enough fixture pages");
    assert_eq!(posts.len(), 3);

    let mut posts = posts.into_iter();
    assert_eq!(
        posts.next(),
        Some(Post {
            title: "Words that do Handstands".into(),
            uri: "http://hardmath123.github.io/ambigrams.html".into(),
            rank: 1,
            author: Some("hardmath123".into()),
            points: Some(82),
            comments: Some(14),
        })
    );
    assert_eq!(posts.next(), Some(Post {
        title: "Possible detection of a black hole with a mass that was thought to be impossible".into(),
        uri: "https://www.quantamagazine.org/possible-detection-of-a-black-hole-so-big-it-should-not-exist-20190828/".into(),
        rank: 2,
        author: Some("theafh".into()),
        points: Some(58),
        comments: Some(35),
    }));
    assert_eq!(
        posts.next(),
        Some(Post {
            title: "Lessons from Stripe".into(),
            uri: "https://markmcgranaghan.com/lessons-from-stripe".into(),
            rank: 3,
            author: Some("rspivak".into()),
            points: Some(110),
            comments: Some(30),
        })
    );
}

/// Hiring posts lack author/points/comments data
#[test]
fn fetch_hiring_post_12() {
    let posts = fetch_posts(12, &fixture_pages(3)).expect("enough fixture pages");
    assert_eq!(posts.len(), 12);

    assert_eq!(
        posts[11],
        Post {
            title: "Mimir (YC S15) Is Hiring a Product Designer to Help Us Improve CS Education"
                .into(),
            uri: "https://hire.withgoogle.com/public/jobs/mimirhqcom/view/P_AAAAAADAACHKrbvKW9X25u"
                .into(),
            rank: 12,
            author: None,
            points: None,
            comments: None,
        }
    );
}

#[test]
fn fetch_more_than_1_page() {
    let posts = fetch_posts(74, &fixture_pages(3)).expect("enough fixture pages");

    let ranks: Vec<_> = posts.iter().map(|p| p.rank).collect();
    assert_eq!(ranks, (1..=74).collect::<Vec<_>>());

    assert_eq!(
        posts[72],
        Post {
            title: "Anthony Levandowski Charged with Theft of Trade Secrets".into(),
            uri: "https://www.nytimes.com/2019/08/27/technology/google-trade-secrets-levandowski.html".into(),
            rank: 73,
            author: Some("coloneltcb".into()),
            points: Some(440),
            comments: Some(339),
        }
    );
}

#[test]
fn fetch_zero_needs_no_page() {
    let no_pages: Vec<Page> = vec![];
    let posts = fetch_posts(0, &no_pages).expect("zero posts need no page");
    assert!(posts.is_empty());

    let fetcher = PostFetcher::new(0);
    assert!(fetcher.done());
    assert_eq!(fetcher.next_page, 1);
}

#[test]
fn fetch_request_is_clamped_to_the_maximum() {
    let posts = fetch_posts(150, &fixture_pages(4)).expect("enough fixture pages");
    assert_eq!(posts.len(), MAX_POSTS);
    assert_eq!(posts.last().unwrap().rank, 100);
}

#[test]
fn fetch_fails_when_pages_run_out() {
    assert!(fetch_posts(74, &fixture_pages(2)).is_none());
    let no_pages: Vec<Page> = vec![];
    assert!(fetch_posts(1, &no_pages).is_none());
}

#[test]
fn extract_drops_invalid_rows_and_keeps_order() {
    let mut rows = post_rows(1, "First", "https://example.com/1", Some("alice"), Some(5), None);
    // a story row with no following structural row: dropped silently
    rows.push(Row {
        name: Some("tr".to_string()),
        classes: vec!["athing".to_string()],
        elements: vec![
            elem("span", &["rank"], None, "2."),
            elem("a", &["storylink"], Some("https://example.com/2"), "Dropped"),
        ],
    });
    let page = Page { rows };

    let posts = extract_posts(&page);
    assert_eq!(posts.len(), 1);
    assert_eq!(posts[0].title, "First");
    assert_eq!(posts[0].comments, None);
}

#[test]
fn fetcher_accumulates_across_pages() {
    let mut fetcher = PostFetcher::new(40);
    assert_eq!(fetcher.next_page, 1);
    fetcher.push_page(&fixture_page(1));
    assert!(!fetcher.done());
    assert_eq!(fetcher.posts.len(), 30);
    assert_eq!(fetcher.next_page, 2);
    fetcher.push_page(&fixture_page(2));
    assert!(fetcher.done());
    assert_eq!(fetcher.posts.len(), 40);
    assert_eq!(fetcher.posts[39].rank, 40);
}

#[test]
fn hiring_post_serializes_without_optional_keys() {
    let posts = fetch_posts(12, &fixture_pages(1)).expect("enough fixture pages");
    let rendered = post_json(&posts[11]);
    assert_eq!(
        rendered,
        "{\"title\":\"Mimir (YC S15) Is Hiring a Product Designer to Help Us Improve CS Education\",\
         \"uri\":\"https://hire.withgoogle.com/public/jobs/mimirhqcom/view/P_AAAAAADAACHKrbvKW9X25u\",\
         \"rank\":12}"
    );
    assert!(!rendered.contains("author"));
    assert!(!rendered.contains("points"));
    assert!(!rendered.contains("comments"));
}

#[test]
fn full_post_serializes_all_keys() {
    let post = Post {
        title: "Lessons from Stripe".into(),
        uri: "https://markmcgranaghan.com/lessons-from-stripe".into(),
        rank: 3,
        author: Some("rspivak".into()),
        points: Some(110),
        comments: Some(30),
    };
    assert_eq!(
        post_json(&post),
        "{\"title\":\"Lessons from Stripe\",\
         \"uri\":\"https://markmcgranaghan.com/lessons-from-stripe\",\
         \"rank\":3,\"author\":\"rspivak\",\"points\":110,\"comments\":30}"
    );
}

#[test]
fn titles_are_escaped_in_json() {
    let post = Post {
        title: "a \"quoted\" title \\ with backslash".into(),
        uri: "https://example.com".into(),
        rank: 1,
        author: None,
        points: None,
        comments: None,
    };
    assert_eq!(
        post_json(&post),
        "{\"title\":\"a \\\"quoted\\\" title \\\\ with backslash\",\
         \"uri\":\"https://example.com\",\"rank\":1}"
    );
}

#[test]
fn posts_render_as_a_json_array() {
    let no_posts: Vec<Post> = vec![];
    assert_eq!(posts_json(&no_posts), "[]");

    let posts = fetch_posts(2, &fixture_pages(1)).expect("enough fixture pages");
    let rendered = posts_json(&posts);
    assert!(rendered.starts_with("[{\"title\":\"Words that do Handstands\""));
    assert!(rendered.contains("},{\"title\":\"Possible detection"));
    assert!(rendered.ends_with("}]"));
}
