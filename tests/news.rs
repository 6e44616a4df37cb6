use rss_parser::news::NewsBuilder;

#[test]
fn builder_sets_required_fields_only() {
    let n = NewsBuilder::new("T".to_string(), "D".to_string(), "L".to_string()).build();
    assert_eq!(n.title, "T");
    assert_eq!(n.description, "D");
    assert_eq!(n.link, "L");
    assert!(n.permanent_link.is_none());
    assert!(n.author_email.is_none());
    assert!(n.categories.is_none());
    assert!(n.media.is_none());
    assert!(n.comments_url.is_none());
    assert!(n.pub_date.is_none());
}

#[test]
fn builder_sets_every_optional_field() {
    let n = NewsBuilder::new("T".to_string(), "D".to_string(), "L".to_string())
        .with_permanent_link("P".to_string())
        .with_author_email("a@b.test".to_string())
        .with_categories(vec!["x".to_string(), "y".to_string()])
        .with_media("M".to_string())
        .with_comments_url("C".to_string())
        .with_pub_date("Mon, 01 Jan 2024 00:00:00 GMT".to_string())
        .build();
    assert_eq!(n.permanent_link.as_deref(), Some("P"));
    assert_eq!(n.author_email.as_deref(), Some("a@b.test"));
    assert_eq!(n.categories, Some(vec!["x".to_string(), "y".to_string()]));
    assert_eq!(n.media.as_deref(), Some("M"));
    assert_eq!(n.comments_url.as_deref(), Some("C"));
    assert_eq!(n.pub_date.as_deref(), Some("Mon, 01 Jan 2024 00:00:00 GMT"));
}

#[test]
fn later_setting_replaces_earlier() {
    let n = NewsBuilder::new("T".to_string(), "D".to_string(), "L".to_string())
        .with_media("first".to_string())
        .with_media("second".to_string())
        .build();
    assert_eq!(n.media.as_deref(), Some("second"));
}
