use linkser::link::Link;
use linkser::state::{AppState, Error};

fn labels_of(state: &AppState, url: &str) -> Vec<String> {
    state.get(url).expect("the link is in the registry").labels.clone()
}

#[test]
fn new_state_is_empty() {
    let state = AppState::new();
    assert_eq!(state.len(), 0);
    assert!(state.is_empty());
    assert!(state.selected().is_none());
    assert!(state.selected_link().is_none());
    assert_eq!(state.link_input(), "");
    assert_eq!(state.label_input(), "");
    assert!(state.get("https://a.com").is_none());
    let other = AppState::default();
    assert_eq!(other.len(), 0);
}

#[test]
fn add_link_inserts_trimmed_url_without_labels() {
    let mut state = AppState::new();
    assert_eq!(state.add_link("  https://a.com \n"), Ok(()));
    assert_eq!(state.len(), 1);
    assert!(!state.is_empty());
    let link = state.get("https://a.com").expect("stored under the trimmed URL");
    assert_eq!(link.url, "https://a.com");
    assert!(link.labels.is_empty());
    assert!(state.get("  https://a.com \n").is_none());
}

#[test]
fn add_link_keeps_inner_white_space() {
    let mut state = AppState::new();
    assert_eq!(state.add_link("\ta b\u{3000}"), Ok(()));
    assert_eq!(state.links()[0].url, "a b");
}

#[test]
fn add_link_twice_already_exists() {
    let mut state = AppState::new();
    assert_eq!(state.add_link("https://a.com"), Ok(()));
    assert_eq!(state.add_link("https://a.com"), Err(Error::AlreadyExists));
    assert_eq!(state.len(), 1);
    assert_eq!(state.add_link("   https://a.com\t"), Err(Error::AlreadyExists));
    assert_eq!(state.len(), 1);
}

#[test]
fn add_link_is_case_sensitive() {
    let mut state = AppState::new();
    assert_eq!(state.add_link("https://a.com"), Ok(()));
    assert_eq!(state.add_link("https://A.com"), Ok(()));
    assert_eq!(state.len(), 2);
}

#[test]
fn add_link_white_space_only_is_empty() {
    let mut state = AppState::new();
    assert_eq!(state.add_link("https://a.com"), Ok(()));
    state.set_link_input(String::from("  "));
    assert_eq!(state.add_link("  "), Err(Error::Empty));
    assert_eq!(state.add_link(""), Err(Error::Empty));
    assert_eq!(state.add_link(" \t\r\n\u{a0}\u{2003}\u{3000}"), Err(Error::Empty));
    assert_eq!(state.len(), 1);
    assert_eq!(state.links()[0].url, "https://a.com");
    assert_eq!(state.link_input(), "  ");
}

#[test]
fn add_link_clears_url_input_only_on_success() {
    let mut state = AppState::new();
    state.set_link_input(String::from("https://a.com"));
    state.set_label_input(String::from("pending"));
    assert_eq!(state.add_link("https://a.com"), Ok(()));
    assert_eq!(state.link_input(), "");
    assert_eq!(state.label_input(), "pending");
    state.set_link_input(String::from("https://a.com"));
    assert_eq!(state.add_link("https://a.com"), Err(Error::AlreadyExists));
    assert_eq!(state.link_input(), "https://a.com");
}

#[test]
fn add_label_twice_is_duplicate() {
    let mut state = AppState::new();
    assert_eq!(state.add_link("https://a.com"), Ok(()));
    assert_eq!(state.add_label("https://a.com", "news"), Ok(()));
    assert_eq!(state.add_label("https://a.com", "news"), Err(Error::Duplicate));
    assert_eq!(labels_of(&state, "https://a.com"), vec![String::from("news")]);
    assert_eq!(labels_of(&state, "https://a.com").len(), 1);
    assert_eq!(state.add_label("https://a.com", "  news "), Err(Error::Duplicate));
    assert_eq!(labels_of(&state, "https://a.com").len(), 1);
}

#[test]
fn add_label_appends_in_order() {
    let mut state = AppState::new();
    assert_eq!(state.add_link("https://a.com"), Ok(()));
    assert_eq!(state.add_link("https://b.com"), Ok(()));
    assert_eq!(state.add_label("https://a.com", " news "), Ok(()));
    assert_eq!(state.add_label("https://a.com", "daily"), Ok(()));
    assert_eq!(state.add_label("https://b.com", "news"), Ok(()));
    assert_eq!(
        labels_of(&state, "https://a.com"),
        vec![String::from("news"), String::from("daily")]
    );
    assert_eq!(labels_of(&state, "https://b.com"), vec![String::from("news")]);
}

#[test]
fn add_label_errors_in_order() {
    let mut state = AppState::new();
    assert_eq!(state.add_label("https://a.com", "  "), Err(Error::NotFound));
    assert_eq!(state.add_label("https://a.com", "news"), Err(Error::NotFound));
    assert_eq!(state.add_link("https://a.com"), Ok(()));
    assert_eq!(state.add_label(" https://a.com", "news"), Err(Error::NotFound));
    assert_eq!(state.add_label("https://a.com", " \t"), Err(Error::Empty));
    assert_eq!(state.add_label("https://a.com", ""), Err(Error::Empty));
    assert!(labels_of(&state, "https://a.com").is_empty());
}

#[test]
fn add_label_clears_label_input_only_on_success() {
    let mut state = AppState::new();
    assert_eq!(state.add_link("https://a.com"), Ok(()));
    state.set_label_input(String::from("news"));
    state.set_link_input(String::from("pending"));
    assert_eq!(state.add_label("https://a.com", "news"), Ok(()));
    assert_eq!(state.label_input(), "");
    assert_eq!(state.link_input(), "pending");
    state.set_label_input(String::from("news"));
    assert_eq!(state.add_label("https://a.com", "news"), Err(Error::Duplicate));
    assert_eq!(state.label_input(), "news");
}

#[test]
fn delete_selected_link_clears_selection() {
    let mut state = AppState::new();
    assert_eq!(state.add_link("https://a.com"), Ok(()));
    assert_eq!(state.add_link("https://b.com"), Ok(()));
    assert_eq!(state.select(Some(String::from("https://a.com"))), Ok(()));
    assert_eq!(state.selected_link().map(|l| l.url.as_str()), Some("https://a.com"));
    assert_eq!(state.delete_link("https://a.com"), Ok(()));
    assert!(state.get("https://a.com").is_none());
    assert!(state.selected().is_none());
    assert_eq!(state.len(), 1);
    assert_eq!(state.links()[0].url, "https://b.com");
}

#[test]
fn delete_other_link_keeps_selection() {
    let mut state = AppState::new();
    assert_eq!(state.add_link("https://a.com"), Ok(()));
    assert_eq!(state.add_link("https://b.com"), Ok(()));
    assert_eq!(state.add_link("https://c.com"), Ok(()));
    assert_eq!(state.select(Some(String::from("https://c.com"))), Ok(()));
    assert_eq!(state.delete_link("https://a.com"), Ok(()));
    assert_eq!(state.selected(), Some(&String::from("https://c.com")));
    let urls: Vec<&str> = state.links().iter().map(|l| l.url.as_str()).collect();
    assert_eq!(urls, vec!["https://b.com", "https://c.com"]);
}

#[test]
fn delete_missing_link_not_found() {
    let mut state = AppState::new();
    assert_eq!(state.delete_link("https://a.com"), Err(Error::NotFound));
    assert_eq!(state.add_link("https://a.com"), Ok(()));
    assert_eq!(state.select(Some(String::from("https://a.com"))), Ok(()));
    assert_eq!(state.delete_link("https://b.com"), Err(Error::NotFound));
    assert_eq!(state.len(), 1);
    assert_eq!(state.selected(), Some(&String::from("https://a.com")));
}

#[test]
fn select_missing_not_found() {
    let mut state = AppState::new();
    assert_eq!(state.select(Some(String::from("missing"))), Err(Error::NotFound));
    assert!(state.selected().is_none());
    assert_eq!(state.add_link("https://a.com"), Ok(()));
    assert_eq!(state.select(Some(String::from("https://a.com"))), Ok(()));
    assert_eq!(state.select(Some(String::from("missing"))), Err(Error::NotFound));
    assert_eq!(state.selected(), Some(&String::from("https://a.com")));
}

#[test]
fn select_none_always_succeeds() {
    let mut state = AppState::new();
    assert_eq!(state.select(None), Ok(()));
    assert_eq!(state.add_link("https://a.com"), Ok(()));
    assert_eq!(state.select(Some(String::from("https://a.com"))), Ok(()));
    assert_eq!(state.select(None), Ok(()));
    assert!(state.selected().is_none());
    assert!(state.selected_link().is_none());
}

#[test]
fn parts_round_trip() {
    let mut state = AppState::new();
    assert_eq!(state.add_link("https://a.com"), Ok(()));
    assert_eq!(state.add_link("https://b.com"), Ok(()));
    assert_eq!(state.add_link("https://c.com"), Ok(()));
    assert_eq!(state.add_label("https://b.com", "news"), Ok(()));
    assert_eq!(state.add_label("https://b.com", "daily"), Ok(()));
    assert_eq!(state.select(Some(String::from("https://b.com"))), Ok(()));
    state.set_link_input(String::from("https://d"));
    state.set_label_input(String::from("wee"));
    let (link_input, label_input, links, selected) = state.into_parts();
    let back = AppState::from_parts(link_input, label_input, links, selected)
        .expect("a state's own parts are valid");
    assert_eq!(back.len(), 3);
    assert_eq!(back.links()[0].url, "https://a.com");
    assert_eq!(back.links()[1].url, "https://b.com");
    assert_eq!(back.links()[2].url, "https://c.com");
    assert!(labels_of(&back, "https://a.com").is_empty());
    assert_eq!(
        labels_of(&back, "https://b.com"),
        vec![String::from("news"), String::from("daily")]
    );
    assert!(labels_of(&back, "https://c.com").is_empty());
    assert_eq!(back.selected(), Some(&String::from("https://b.com")));
    assert_eq!(back.link_input(), "https://d");
    assert_eq!(back.label_input(), "wee");
}

#[test]
fn from_parts_rejects_broken_rules() {
    let twice = vec![Link::new(String::from("a")), Link::new(String::from("a"))];
    assert!(AppState::from_parts(String::new(), String::new(), twice, None).is_none());

    let repeated = Link {
        url: String::from("a"),
        labels: vec![String::from("x"), String::from("y"), String::from("x")],
    };
    assert!(AppState::from_parts(String::new(), String::new(), vec![repeated], None).is_none());

    let dangling = vec![Link::new(String::from("a"))];
    assert!(AppState::from_parts(
        String::new(),
        String::new(),
        dangling,
        Some(String::from("b"))
    )
    .is_none());

    let fine = vec![Link::new(String::from("a")), Link::new(String::from("b"))];
    let state = AppState::from_parts(String::new(), String::new(), fine, Some(String::from("b")))
        .expect("distinct URLs and a selection among them");
    assert_eq!(state.len(), 2);
    assert_eq!(state.selected(), Some(&String::from("b")));
}
