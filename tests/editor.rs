use blog_creator::clock::{CalendarDate, Timestamp};
use blog_creator::document::PersistedPost;
use blog_creator::editor::{shortcut, suggested_file_name, Action, Event, Post, TabId};

fn today() -> CalendarDate {
    CalendarDate { year: 2024, month: 5, day: 17 }
}

fn sample_post() -> PersistedPost {
    PersistedPost {
        title: "Bread in Three Steps".to_string(),
        body: "# Bread\n\nKnead *well*.".to_string(),
        image_url: "/assets/bred.png".to_string(),
        summary: "How to bake bread".to_string(),
        timestamp: Timestamp::from_parts(2024, 2, 29, 7, 5, 9).unwrap(),
        tags: vec!["cooking".to_string(), "bread".to_string()],
    }
}

fn preview_len(text: &str) -> usize {
    iced::widget::markdown::parse(text).count()
}

#[test]
fn edit_title_content_then_cancelled_save_keeps_no_path() {
    let mut post = Post::empty(today(), "12:00:00".to_string());
    assert!(matches!(post.update(Event::EditTitle("Hello".to_string())), Action::Nothing));
    assert!(matches!(post.update(Event::EditContent("World".to_string())), Action::Nothing));
    match post.update(Event::SaveFile) {
        Action::PickSavePath(name) => assert_eq!(name, "hello"),
        _ => panic!("a save path is asked for"),
    }
    assert!(matches!(post.update(Event::SavePathChosen(None)), Action::Nothing));
    assert_eq!(post.savepath, None);
    assert_eq!(post.name, "Hello");
    assert_eq!(post.body, "World");
}

#[test]
fn load_sets_path_and_keeps_selected_tab() {
    let mut post = Post::empty(today(), "12:00:00".to_string());
    post.update(Event::TabSelected(TabId::Meta));
    post.update(Event::EditTitle("old".to_string()));
    assert!(matches!(post.update(Event::LoadFile), Action::PickFileToLoad));
    let a = post.update(Event::FileLoaded("/tmp/bread.json".to_string(), sample_post()));
    assert!(matches!(a, Action::Nothing));
    assert_eq!(post.savepath, Some("/tmp/bread.json".to_string()));
    assert_eq!(post.selected_tab, TabId::Meta);
    assert_eq!(post.name, "Bread in Three Steps");
    assert_eq!(post.tags, "cooking,bread");
    assert_eq!(post.time, "07:05:09");
    assert_eq!(post.date, CalendarDate { year: 2024, month: 2, day: 29 });
    assert!(!post.show_picker && !post.show_picker_time);
    assert!(post.image.is_none());
    assert_eq!(post.parsed.len(), preview_len("# Bread\n\nKnead *well*."));
}

#[test]
fn load_then_save_gives_the_post_back() {
    let original = sample_post();
    let post = Post::from_persisted(sample_post());
    assert!(post.can_save());
    let saved = post.to_persisted();
    assert_eq!(saved.title, original.title);
    assert_eq!(saved.body, original.body);
    assert_eq!(saved.image_url, original.image_url);
    assert_eq!(saved.summary, original.summary);
    assert_eq!(saved.timestamp, original.timestamp);
    assert_eq!(saved.tags, original.tags);
}

#[test]
fn selecting_content_tab_twice_is_selecting_it_once() {
    let mut once = Post::from_persisted(sample_post());
    once.update(Event::TabSelected(TabId::Meta));
    once.update(Event::TabSelected(TabId::Content));
    let mut twice = Post::from_persisted(sample_post());
    twice.update(Event::TabSelected(TabId::Meta));
    twice.update(Event::TabSelected(TabId::Content));
    twice.update(Event::TabSelected(TabId::Content));
    assert_eq!(once.selected_tab, TabId::Content);
    assert_eq!(twice.selected_tab, once.selected_tab);
    assert_eq!(twice.body, once.body);
    assert_eq!(twice.parsed.len(), once.parsed.len());
}

#[test]
fn preview_follows_every_edit() {
    let mut post = Post::empty(today(), "12:00:00".to_string());
    assert_eq!(post.parsed.len(), 0);
    post.update(Event::EditContent("# A\n\npara\n\n- x\n- y".to_string()));
    assert_eq!(post.parsed.len(), preview_len("# A\n\npara\n\n- x\n- y"));
    assert_eq!(post.parsed.len(), 3);
    post.update(Event::EditTitle("t".to_string()));
    assert_eq!(post.parsed.len(), 3);
    post.update(Event::EditContent(String::new()));
    assert_eq!(post.parsed.len(), 0);
}

#[test]
fn empty_tags_save_as_one_empty_tag() {
    let mut post = Post::from_persisted(sample_post());
    post.update(Event::EditTags(String::new()));
    let saved = post.to_persisted();
    assert_eq!(saved.tags, vec![String::new()]);
}

#[test]
fn submitted_hour_only_time_saves_zero_minute_and_second() {
    let mut post = Post::from_persisted(sample_post());
    post.update(Event::ChooseTime);
    assert!(post.show_picker_time);
    post.update(Event::SubmitTime("18".to_string()));
    assert!(!post.show_picker_time);
    let t = post.to_persisted().timestamp;
    assert_eq!((t.hour, t.minute, t.second), (18, 0, 0));
    post.update(Event::SubmitTime("nonsense".to_string()));
    let t = post.to_persisted().timestamp;
    assert_eq!((t.hour, t.minute, t.second), (0, 0, 0));
}

#[test]
fn invalid_date_cannot_be_saved() {
    let mut post = Post::from_persisted(sample_post());
    post.update(Event::ChooseDate);
    assert!(post.show_picker);
    post.update(Event::SubmitDate(CalendarDate { year: 2023, month: 2, day: 30 }));
    assert!(!post.show_picker);
    assert!(!post.can_save());
    assert!(matches!(post.update(Event::SaveAsPathChosen(Some("/tmp/p.json".to_string()))), Action::InvalidTimestamp));
}

#[test]
fn cancel_date_and_time_close_the_pickers() {
    let mut post = Post::empty(today(), "01:02:03".to_string());
    post.update(Event::ChooseDate);
    post.update(Event::CancelDate);
    post.update(Event::ChooseTime);
    post.update(Event::CancelTime);
    assert!(!post.show_picker && !post.show_picker_time);
    assert_eq!(post.date, today());
    assert_eq!(post.time, "01:02:03");
}

#[test]
fn save_with_known_path_writes() {
    let mut post = Post::from_persisted(sample_post());
    post.update(Event::SaveAsPathChosen(Some("/tmp/a.json".to_string())));
    match post.update(Event::SaveFile) {
        Action::Write(path, p) => {
            assert_eq!(path, "/tmp/a.json");
            assert_eq!(p.title, "Bread in Three Steps");
            assert_eq!(p.tags, vec!["cooking", "bread"]);
        }
        _ => panic!("the post is written"),
    }
}

#[test]
fn save_to_file_asks_and_cancel_keeps_path() {
    let mut post = Post::from_persisted(sample_post());
    post.update(Event::SavePathChosen(Some("/tmp/a.json".to_string())));
    assert_eq!(post.savepath, Some("/tmp/a.json".to_string()));
    match post.update(Event::SaveToFile) {
        Action::PickSaveAsPath(name) => assert_eq!(name, "bread-in-three-steps"),
        _ => panic!("a save path is asked for"),
    }
    assert!(matches!(post.update(Event::SaveAsPathChosen(None)), Action::Nothing));
    assert_eq!(post.savepath, Some("/tmp/a.json".to_string()));
}

#[test]
fn save_to_file_cancel_without_path_writes_nothing() {
    let mut post = Post::from_persisted(sample_post());
    assert!(matches!(post.update(Event::SaveToFile), Action::PickSaveAsPath(_)));
    assert!(matches!(post.update(Event::SaveAsPathChosen(None)), Action::Nothing));
    assert_eq!(post.savepath, None);
}

#[test]
fn unreadable_file_gives_empty_post_with_path_and_tab() {
    let mut post = Post::from_persisted(sample_post());
    post.update(Event::TabSelected(TabId::Meta));
    let a = post.update(Event::FileUnreadable("/tmp/gone.json".to_string(), today(), "08:00:00".to_string()));
    assert!(matches!(a, Action::Nothing));
    assert_eq!(post.savepath, Some("/tmp/gone.json".to_string()));
    assert_eq!(post.selected_tab, TabId::Meta);
    assert_eq!(post.name, "");
    assert_eq!(post.body, "");
    assert_eq!(post.tags, "");
    assert_eq!(post.date, today());
    assert_eq!(post.time, "08:00:00");
    assert_eq!(post.parsed.len(), 0);
}

#[test]
fn image_events() {
    let mut post = Post::empty(today(), "12:00:00".to_string());
    post.update(Event::EditImageUrl("http://x/i.png".to_string()));
    match post.update(Event::SubmitImageUrl(post.image_url.clone())) {
        Action::FetchImage(u) => assert_eq!(u, "http://x/i.png"),
        _ => panic!("the image is fetched"),
    }
    post.update(Event::ImageFetched(Some(vec![1, 2, 3])));
    assert_eq!(post.image, Some(vec![1, 2, 3]));
    post.update(Event::ImageFetched(None));
    assert_eq!(post.image, None);
}

#[test]
fn link_click_opens_link() {
    let mut post = Post::empty(today(), "12:00:00".to_string());
    match post.update(Event::LinkClicked("https://example.org/".to_string())) {
        Action::OpenLink(u) => assert_eq!(u, "https://example.org/"),
        _ => panic!("the link is opened"),
    }
    post.update(Event::EditSummary("s".to_string()));
    assert_eq!(post.description, "s");
}

#[test]
fn suggested_name_is_lower_case_with_hyphens() {
    assert_eq!(suggested_file_name("How To Cook Bread"), "how-to-cook-bread");
    assert_eq!(suggested_file_name(""), "");
}

#[test]
fn shortcuts_map_to_file_commands() {
    assert!(matches!(shortcut("s", true, false), Some(Event::SaveFile)));
    assert!(matches!(shortcut("s", true, true), Some(Event::SaveToFile)));
    assert!(matches!(shortcut("o", true, false), Some(Event::LoadFile)));
    assert!(shortcut("s", false, false).is_none());
    assert!(shortcut("x", true, false).is_none());
    assert!(shortcut("ss", true, false).is_none());
}

#[test]
fn hyphenate_replaces_every_space() {
    assert_eq!(blog_creator::editor::hyphenate_spaces("a b  c"), "a-b--c");
    assert_eq!(blog_creator::editor::hyphenate_spaces("No Change"), "No-Change");
}
