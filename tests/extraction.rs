use galleria::extract::{
    attachment_is_image, attachments_to_db, embeds_to_db, extract_media, fit_dimension,
    transpose_embed_media,
};
use galleria::media::{Attachment, Embed, EmbedMedia, MediaKind};
use galleria::text::{same_text, starts_with};

fn attachment(content_type: Option<&str>, url: &str) -> Attachment {
    Attachment {
        content_type: content_type.map(|s| s.to_string()),
        url: url.to_string(),
        width: Some(640),
        height: Some(480),
    }
}

fn media(url: &str, width: Option<u64>, height: Option<u64>) -> EmbedMedia {
    EmbedMedia { url: url.to_string(), width, height }
}

#[test]
fn non_image_attachments_are_excluded() {
    let atts = vec![
        attachment(Some("text/plain"), "a.txt"),
        attachment(Some("image/png"), "u1"),
        attachment(None, "unknown"),
        attachment(Some("video/mp4"), "clip.mp4"),
        attachment(Some("application/image"), "tricky"),
    ];
    let refs = extract_media(&atts, &vec![]);
    assert_eq!(refs.len(), 1);
    assert_eq!(refs[0].media_url, Some("u1".to_string()));
    assert_eq!(refs[0].kind, MediaKind::Attachment);
}

#[test]
fn embeds_without_image_or_thumbnail_are_excluded() {
    let embeds = vec![
        Embed { url: Some("https://plain.example".to_string()), image: None, thumbnail: None },
        Embed {
            url: Some("https://pic.example".to_string()),
            image: Some(media("https://pic.example/i.png", Some(10), Some(20))),
            thumbnail: None,
        },
        Embed { url: None, image: None, thumbnail: None },
    ];
    let refs = extract_media(&vec![], &embeds);
    assert_eq!(refs.len(), 1);
    assert_eq!(refs[0].source_url, Some("https://pic.example".to_string()));
    assert_eq!(refs[0].kind, MediaKind::Embed);
}

#[test]
fn extraction_twice_gives_the_same_output() {
    let atts = vec![attachment(Some("image/jpeg"), "u1"), attachment(Some("text/html"), "u2")];
    let embeds = vec![Embed {
        url: Some("https://link".to_string()),
        image: None,
        thumbnail: Some(media("https://link/t.png", Some(5), None)),
    }];
    let first = extract_media(&atts, &embeds);
    let second = extract_media(&atts, &embeds);
    assert_eq!(first, second);
    assert_eq!(first.len(), 2);
}

#[test]
fn attachments_come_before_embeds_in_input_order() {
    let atts = vec![attachment(Some("image/png"), "a1"), attachment(Some("image/gif"), "a2")];
    let embeds = vec![
        Embed { url: Some("e1".to_string()), image: Some(media("i1", None, None)), thumbnail: None },
        Embed { url: Some("e2".to_string()), image: None, thumbnail: Some(media("t2", None, None)) },
    ];
    let refs = extract_media(&atts, &embeds);
    let urls: Vec<Option<String>> = refs.iter().map(|r| r.media_url.clone()).collect();
    assert_eq!(
        urls,
        vec![Some("a1".to_string()), Some("a2".to_string()), Some("i1".to_string()), None]
    );
    assert_eq!(refs[3].thumbnail_url, Some("t2".to_string()));
    assert_eq!(refs[3].source_url, Some("e2".to_string()));
}

#[test]
fn embed_reference_carries_image_and_thumbnail_fields() {
    let embeds = vec![Embed {
        url: Some("https://site".to_string()),
        image: Some(media("https://site/full.png", Some(1920), Some(1080))),
        thumbnail: Some(media("https://site/small.png", Some(192), Some(108))),
    }];
    let refs = embeds_to_db(&embeds);
    assert_eq!(refs.len(), 1);
    let r = &refs[0];
    assert_eq!(r.media_url, Some("https://site/full.png".to_string()));
    assert_eq!(r.media_width, Some(1920));
    assert_eq!(r.media_height, Some(1080));
    assert_eq!(r.thumbnail_url, Some("https://site/small.png".to_string()));
    assert_eq!(r.thumbnail_width, Some(192));
    assert_eq!(r.thumbnail_height, Some(108));
}

#[test]
fn thumbnail_only_embed_has_empty_image_fields() {
    let embeds = vec![Embed {
        url: None,
        image: None,
        thumbnail: Some(media("t", Some(1), Some(2))),
    }];
    let refs = embeds_to_db(&embeds);
    assert_eq!(refs.len(), 1);
    assert_eq!(refs[0].source_url, None);
    assert_eq!(refs[0].media_url, None);
    assert_eq!(refs[0].media_width, None);
    assert_eq!(refs[0].media_height, None);
    assert_eq!(refs[0].thumbnail_url, Some("t".to_string()));
}

#[test]
fn oversized_dimensions_become_absent() {
    assert_eq!(fit_dimension(Some(2147483647)), Some(2147483647));
    assert_eq!(fit_dimension(Some(2147483648)), None);
    assert_eq!(fit_dimension(Some(u64::MAX)), None);
    assert_eq!(fit_dimension(Some(0)), Some(0));
    assert_eq!(fit_dimension(None), None);
    let atts = vec![Attachment {
        content_type: Some("image/png".to_string()),
        url: "big".to_string(),
        width: Some(5_000_000_000),
        height: Some(300),
    }];
    let refs = attachments_to_db(&atts);
    assert_eq!(refs.len(), 1);
    assert_eq!(refs[0].media_width, None);
    assert_eq!(refs[0].media_height, Some(300));
}

#[test]
fn transpose_of_absent_media_is_all_absent() {
    assert_eq!(transpose_embed_media(&None), (None, None, None));
    assert_eq!(
        transpose_embed_media(&Some(media("m", Some(3), Some(3_000_000_000)))),
        (Some("m".to_string()), Some(3), None)
    );
}

#[test]
fn image_content_type_is_a_prefix_test() {
    assert!(attachment_is_image(&attachment(Some("image/png"), "x")));
    assert!(attachment_is_image(&attachment(Some("image"), "x")));
    assert!(!attachment_is_image(&attachment(Some("imag"), "x")));
    assert!(!attachment_is_image(&attachment(Some("Image/png"), "x")));
    assert!(!attachment_is_image(&attachment(Some(""), "x")));
    assert!(!attachment_is_image(&attachment(None, "x")));
}

#[test]
fn empty_message_yields_nothing() {
    assert!(extract_media(&vec![], &vec![]).is_empty());
}

#[test]
fn text_helpers() {
    assert!(starts_with("image/webp", "image"));
    assert!(starts_with("abc", ""));
    assert!(!starts_with("ab", "abc"));
    assert!(starts_with("éclair", "éc"));
    assert!(same_text("~ping", "~ping"));
    assert!(!same_text("~ping ", "~ping"));
    assert!(!same_text("~pinG", "~ping"));
}
