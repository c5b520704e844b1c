use galleria::admission::{
    admission_after_insert, admission_after_lookup, admission_error, Admission, AdmissionError,
    AdmissionStep,
};
use galleria::command::{classify, pong, Command};
use galleria::ingest::{
    has_media_candidates, plan_message_update, plan_new_message, MessageCreated, MessageEdited,
};
use galleria::media::{Attachment, Embed, EmbedMedia};
use galleria::store::{Gallery, GalleryStore, PostBatch, StoreError};

const NOW: i64 = 1_657_000_000;

fn image(url: &str) -> Attachment {
    Attachment {
        content_type: Some("image/png".to_string()),
        url: url.to_string(),
        width: None,
        height: None,
    }
}

fn created(id: u64, channel_id: u64, attachments: Vec<Attachment>) -> MessageCreated {
    MessageCreated { id, channel_id, attachments, embeds: vec![] }
}

fn store_with_gallery(channel_id: u64) -> (GalleryStore, Gallery) {
    let mut store = GalleryStore::new();
    let g = store.create_gallery(channel_id, "#art".to_string(), NOW).unwrap();
    (store, g)
}

#[test]
fn scenario_a_one_image_attachment() {
    let (mut store, g) = store_with_gallery(100);
    let msg = created(1, 100, vec![image("u1")]);
    assert_eq!(store.handle_new_message(&msg, NOW), Ok(()));
    let posts = store.posts_for_message(1);
    assert_eq!(posts.len(), 1);
    assert_eq!(posts[0].media.media_url, Some("u1".to_string()));
    assert_eq!(posts[0].gallery, g.pk);
    assert_eq!(posts[0].message_id, 1);
    assert_eq!(posts[0].date_created, NOW);
    assert_eq!(g.date_created, NOW);
    assert_eq!(store.post_count(), 1);
}

#[test]
fn scenario_b_edit_removes_only_image() {
    let (mut store, _) = store_with_gallery(100);
    store.handle_new_message(&created(1, 100, vec![image("u1")]), NOW).unwrap();
    assert_eq!(store.posts_for_message(1).len(), 1);
    let edit = MessageEdited { id: 1, channel_id: 100, attachments: Some(vec![]), embeds: None };
    assert_eq!(store.handle_message_update(&edit, NOW), Ok(()));
    assert!(store.posts_for_message(1).is_empty());
    assert_eq!(store.post_count(), 0);
}

#[test]
fn scenario_c_admission_twice() {
    let mut store = GalleryStore::new();
    let first = store.handle_gallery_command(7, "#photos".to_string(), NOW);
    match &first {
        Admission::Created(g) => {
            assert_eq!(g.channel_id, 7);
            assert_eq!(g.name, "#photos".to_string());
        }
        other => panic!("expected a new gallery, got {:?}", other),
    }
    assert_eq!(first.reply(), None);
    let second = store.handle_gallery_command(7, "#photos".to_string(), NOW);
    assert_eq!(second, Admission::AlreadyExists);
    assert_eq!(
        second.reply(),
        Some("A gallery for this channel already exists.".to_string())
    );
    assert_eq!(store.gallery_count(), 1);
}

#[test]
fn edit_replaces_posts_with_fresh_rows() {
    let (mut store, _) = store_with_gallery(5);
    store.handle_new_message(&created(9, 5, vec![image("a"), image("b")]), NOW).unwrap();
    store.handle_new_message(&created(10, 5, vec![image("other")]), NOW).unwrap();
    let before: Vec<u128> = store.posts_for_message(9).iter().map(|p| p.pk).collect();
    assert_eq!(before.len(), 2);
    let edit = MessageEdited {
        id: 9,
        channel_id: 5,
        attachments: Some(vec![image("c")]),
        embeds: Some(vec![Embed {
            url: Some("https://x".to_string()),
            image: Some(EmbedMedia { url: "https://x/i.png".to_string(), width: None, height: None }),
            thumbnail: None,
        }]),
    };
    store.handle_message_update(&edit, NOW + 60).unwrap();
    let after = store.posts_for_message(9);
    assert_eq!(after.len(), 2);
    assert!(after.iter().all(|p| p.date_created == NOW + 60));
    for p in &after {
        assert!(!before.contains(&p.pk));
    }
    assert_eq!(after[0].media.media_url, Some("c".to_string()));
    assert_eq!(after[1].media.media_url, Some("https://x/i.png".to_string()));
    assert_eq!(store.posts_for_message(10).len(), 1);
    assert_eq!(store.post_count(), 3);
}

#[test]
fn edit_with_absent_lists_deletes_posts() {
    let (mut store, _) = store_with_gallery(5);
    store.handle_new_message(&created(3, 5, vec![image("a")]), NOW).unwrap();
    let edit = MessageEdited { id: 3, channel_id: 5, attachments: None, embeds: None };
    store.handle_message_update(&edit, NOW).unwrap();
    assert!(store.posts_for_message(3).is_empty());
}

#[test]
fn second_create_for_a_channel_conflicts() {
    let mut store = GalleryStore::new();
    let first = store.create_gallery(42, "one".to_string(), NOW);
    assert!(first.is_ok());
    let second = store.create_gallery(42, "two".to_string(), NOW);
    assert_eq!(second, Err(StoreError::Conflict));
    assert_eq!(store.gallery_count(), 1);
    assert_eq!(store.find_by_channel_id(42), first.ok());
}

#[test]
fn no_gallery_means_no_writes() {
    let (mut store, _) = store_with_gallery(1);
    assert_eq!(store.handle_new_message(&created(1, 2, vec![image("u")]), NOW), Ok(()));
    let edit = MessageEdited { id: 1, channel_id: 2, attachments: Some(vec![image("v")]), embeds: None };
    assert_eq!(store.handle_message_update(&edit, NOW), Ok(()));
    assert_eq!(store.post_count(), 0);
    assert_eq!(store.gallery_count(), 1);
    assert_eq!(plan_new_message(&created(1, 2, vec![image("u")]), &None), None);
    assert_eq!(plan_message_update(&edit, &None), None);
}

#[test]
fn message_without_qualifying_media_writes_nothing() {
    let (mut store, g) = store_with_gallery(1);
    let text_only = Attachment {
        content_type: Some("text/plain".to_string()),
        url: "notes.txt".to_string(),
        width: None,
        height: None,
    };
    let msg = created(4, 1, vec![text_only]);
    assert!(has_media_candidates(&msg));
    assert_eq!(plan_new_message(&msg, &Some(g)), None);
    store.handle_new_message(&msg, NOW).unwrap();
    assert_eq!(store.post_count(), 0);
    assert!(!has_media_candidates(&created(5, 1, vec![])));
}

#[test]
fn plans_name_the_gallery_and_message() {
    let g = Gallery { pk: 77, name: "g".to_string(), channel_id: 3, date_created: NOW };
    let batch = plan_new_message(&created(8, 3, vec![image("u")]), &Some(g.duplicate())).unwrap();
    assert_eq!(batch.gallery, 77);
    assert_eq!(batch.message_id, 8);
    assert_eq!(batch.posts.len(), 1);
    let edit = MessageEdited { id: 8, channel_id: 3, attachments: None, embeds: None };
    let replace = plan_message_update(&edit, &Some(g)).unwrap();
    assert_eq!(replace.gallery, 77);
    assert!(replace.posts.is_empty());
}

#[test]
fn batch_for_missing_gallery_is_not_found() {
    let mut store = GalleryStore::new();
    let batch = PostBatch { gallery: 999, message_id: 1, posts: vec![] };
    assert_eq!(store.insert_batch(&batch, NOW), Err(StoreError::NotFound));
    assert_eq!(store.replace_batch(&batch, NOW), Err(StoreError::NotFound));
}

#[test]
fn posts_are_listed_per_gallery() {
    let mut store = GalleryStore::new();
    let a = store.create_gallery(1, "a".to_string(), NOW).unwrap();
    let b = store.create_gallery(2, "b".to_string(), NOW).unwrap();
    store.handle_new_message(&created(10, 1, vec![image("x"), image("y")]), NOW).unwrap();
    store.handle_new_message(&created(11, 2, vec![image("z")]), NOW).unwrap();
    let in_a = store.posts_of_gallery(a.pk);
    assert_eq!(in_a.len(), 2);
    assert_eq!(in_a[0].media.media_url, Some("x".to_string()));
    assert_eq!(in_a[1].media.media_url, Some("y".to_string()));
    assert_eq!(store.posts_of_gallery(b.pk).len(), 1);
    assert!(in_a[0].pk < in_a[1].pk);
}

#[test]
fn admission_steps() {
    let g = Gallery { pk: 1, name: "n".to_string(), channel_id: 2, date_created: NOW };
    assert_eq!(admission_after_lookup(&Ok(None)), AdmissionStep::FetchChannel);
    assert_eq!(
        admission_after_lookup(&Ok(Some(g.duplicate()))),
        AdmissionStep::Done(Admission::AlreadyExists)
    );
    assert_eq!(
        admission_after_lookup(&Err(StoreError::Storage)),
        AdmissionStep::Done(Admission::Failed(AdmissionError::Storage))
    );
    assert_eq!(
        admission_after_insert(Err(StoreError::Conflict)),
        Admission::Failed(AdmissionError::Conflict)
    );
    assert_eq!(admission_after_insert(Ok(g.duplicate())), Admission::Created(g));
    assert_eq!(admission_error(StoreError::NotFound), AdmissionError::Storage);
    assert_eq!(
        Admission::Failed(AdmissionError::ExternalFetch).reply(),
        Some("An error occurred while running the command.".to_string())
    );
}

#[test]
fn commands_are_whole_texts() {
    assert_eq!(classify("~ping"), Command::Ping);
    assert_eq!(classify("~gallery"), Command::Gallery);
    assert_eq!(classify("~gallery now"), Command::Ingest);
    assert_eq!(classify(""), Command::Ingest);
    assert_eq!(pong(), "Pong!".to_string());
}
