use artfetch::gac::{
    gac_fields, gac_metadata_from_html, gac_urls, split_og_title, strip_gac_size_param,
    title_before_separator,
};

#[test]
fn size_parameter_is_stripped() {
    assert_eq!(strip_gac_size_param("https://lh3.googleusercontent.com/abc=s1200"), "https://lh3.googleusercontent.com/abc");
    assert_eq!(strip_gac_size_param("https://x/a=b=c"), "https://x/a=b");
    assert_eq!(strip_gac_size_param("https://x/plain"), "https://x/plain");
}

#[test]
fn og_title_splits_at_last_dash() {
    assert_eq!(split_og_title("Blossoming Chestnut Trees - Vincent van Gogh"), ("Blossoming Chestnut Trees".to_string(), "Vincent van Gogh".to_string()));
    assert_eq!(split_og_title("A - B - C"), ("A - B".to_string(), "C".to_string()));
    assert_eq!(split_og_title("  Untitled  "), ("Untitled".to_string(), String::new()));
}

#[test]
fn page_title_is_cut_at_dash_or_bar() {
    assert_eq!(title_before_separator("Starry Night – Google Arts & Culture"), "Starry Night");
    assert_eq!(title_before_separator("Sunflowers — Van Gogh"), "Sunflowers");
    assert_eq!(title_before_separator(" Irises | Museum "), "Irises");
    assert_eq!(title_before_separator("No separator"), "No separator");
}

#[test]
fn fields_from_page_parts() {
    let r = gac_fields(
        Some("The Bedroom - Vincent van Gogh".to_string()),
        Some("https://lh3/x=w400".to_string()),
        Some("ignored – site".to_string()),
    );
    assert_eq!(r, ("The Bedroom".to_string(), "Vincent van Gogh".to_string(), "https://lh3/x=w400".to_string(), "https://lh3/x".to_string()));
    let fallback = gac_fields(Some(" - Anonymous".to_string()), None, Some("Vase | Museum".to_string()));
    assert_eq!(fallback, ("Vase".to_string(), "Anonymous".to_string(), String::new(), String::new()));
    assert_eq!(gac_fields(None, None, None), (String::new(), String::new(), String::new(), String::new()));
}

#[test]
fn metadata_from_html() {
    let html = r#"<!DOCTYPE html><html><head>
<title>Blossoming Chestnut Trees – Vincent van Gogh — Google Arts &amp; Culture</title>
<meta property="og:title" content="Blossoming Chestnut Trees - Vincent van Gogh">
<meta property="og:image" content="https://lh3.googleusercontent.com/ci/abc=s1200">
</head><body></body></html>"#;
    let (title, artist, thumb, base) = gac_metadata_from_html(html);
    assert_eq!(title, "Blossoming Chestnut Trees");
    assert_eq!(artist, "Vincent van Gogh");
    assert_eq!(thumb, "https://lh3.googleusercontent.com/ci/abc=s1200");
    assert_eq!(base, "https://lh3.googleusercontent.com/ci/abc");
}

#[test]
fn metadata_falls_back_to_title_element() {
    let html = "<html><head><title>The Starry Night &amp; more | Google Arts</title></head><body></body></html>";
    let (title, artist, thumb, base) = gac_metadata_from_html(html);
    assert_eq!(title, "The Starry Night & more");
    assert_eq!(artist, "");
    assert_eq!(thumb, "");
    assert_eq!(base, "");
    assert_eq!(gac_metadata_from_html(""), (String::new(), String::new(), String::new(), String::new()));
}

#[test]
fn url_arguments() {
    let args = vec![
        "--verbose".to_string(),
        "https://artsandculture.google.com/asset/a".to_string(),
        "http://x".to_string(),
        "ftp://y".to_string(),
    ];
    assert_eq!(gac_urls(&args), vec!["https://artsandculture.google.com/asset/a".to_string(), "http://x".to_string()]);
}
