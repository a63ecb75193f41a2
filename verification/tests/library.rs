use marlinbox_rs::card::Card;
use marlinbox_rs::Library;

fn sample() -> Library {
    let mut library = Library::new();
    library.update("04A1B2C3D4E5F601", Some(Card::play("music/first.mp3")));
    library.update("04A1B2C3D4E5F602", Some(Card::Pause));
    library.add("04A1B2C3D4E5F603");
    library
}

#[test]
fn new_library_knows_no_card() {
    let library = Library::new();
    assert_eq!(library.get("04A1B2C3D4E5F601"), None);
    assert!(!library.contains("04A1B2C3D4E5F601"));
    assert!(library.entries().is_empty());
}

#[test]
fn default_library_is_empty() {
    let library = Library::default();
    assert!(library.entries().is_empty());
    assert_eq!(library.get_random(), None);
}

#[test]
fn add_reserves_a_card_without_action() {
    let mut library = Library::new();
    library.add("AB");
    assert!(library.contains("AB"));
    assert_eq!(library.get("AB"), None);
}

#[test]
fn add_is_idempotent() {
    let mut library = Library::new();
    library.add("AB");
    library.add("AB");
    assert_eq!(library.entries(), vec![("AB".to_string(), None)]);
}

#[test]
fn add_takes_the_action_of_a_bound_card_away() {
    let mut library = sample();
    library.add("04A1B2C3D4E5F602");
    assert!(library.contains("04A1B2C3D4E5F602"));
    assert_eq!(library.get("04A1B2C3D4E5F602"), None);
    assert_eq!(library.entries().len(), 3);
}

#[test]
fn update_binds_a_card() {
    let library = sample();
    assert_eq!(
        library.get("04A1B2C3D4E5F601"),
        Some(&Card::Play("music/first.mp3".to_string()))
    );
    assert_eq!(library.get("04A1B2C3D4E5F602"), Some(&Card::Pause));
}

#[test]
fn update_overwrites_the_action() {
    let mut library = sample();
    library.update("04A1B2C3D4E5F601", Some(Card::Next));
    assert_eq!(library.get("04A1B2C3D4E5F601"), Some(&Card::Next));
    assert_eq!(library.entries().len(), 3);
}

#[test]
fn update_with_none_reserves() {
    let mut library = sample();
    library.update("04A1B2C3D4E5F601", None);
    assert!(library.contains("04A1B2C3D4E5F601"));
    assert_eq!(library.get("04A1B2C3D4E5F601"), None);
}

#[test]
fn get_tells_reserved_and_unknown_cards_alike() {
    let library = sample();
    assert_eq!(library.get("04A1B2C3D4E5F603"), None);
    assert_eq!(library.get("FFFFFFFFFFFFFFFF"), None);
    assert!(library.contains("04A1B2C3D4E5F603"));
    assert!(!library.contains("FFFFFFFFFFFFFFFF"));
}

#[test]
fn card_identities_are_told_apart_by_case() {
    let mut library = Library::new();
    library.update("ab", Some(Card::Pause));
    assert_eq!(library.get("AB"), None);
    assert_eq!(library.get("ab"), Some(&Card::Pause));
}

#[test]
fn remove_hands_back_the_action() {
    let mut library = sample();
    assert_eq!(library.remove("04A1B2C3D4E5F602"), Some(Card::Pause));
    assert!(!library.contains("04A1B2C3D4E5F602"));
    assert_eq!(library.get("04A1B2C3D4E5F601"), Some(&Card::play("music/first.mp3")));
    assert!(library.contains("04A1B2C3D4E5F603"));
}

#[test]
fn remove_of_a_reserved_card_gives_nothing() {
    let mut library = sample();
    assert_eq!(library.remove("04A1B2C3D4E5F603"), None);
    assert!(!library.contains("04A1B2C3D4E5F603"));
}

#[test]
fn remove_of_an_unknown_card_changes_nothing() {
    let mut library = sample();
    let before = library.entries();
    assert_eq!(library.remove("FFFFFFFFFFFFFFFF"), None);
    assert_eq!(library.entries(), before);
}

#[test]
fn reserve_then_remove_restores_the_library() {
    let mut library = sample();
    let before = library.entries();
    library.add("0000000000000001");
    assert_eq!(library.remove("0000000000000001"), None);
    assert_eq!(library.entries(), before);
}

#[test]
fn get_random_finds_nothing_where_nothing_is_bound() {
    let mut library = Library::new();
    assert_eq!(library.get_random(), None);
    library.add("AA");
    library.add("BB");
    assert_eq!(library.get_random(), None);
}

#[test]
fn get_random_gives_the_only_bound_action() {
    let mut library = Library::new();
    library.add("AA");
    library.add("BB");
    library.update("CC", Some(Card::Resume));
    library.add("DD");
    for _ in 0..50 {
        assert_eq!(library.get_random(), Some(&Card::Resume));
    }
}

#[test]
fn get_random_gives_bound_actions_only_and_each_of_them() {
    let mut library = Library::new();
    library.update("AA", Some(Card::Pause));
    library.add("BB");
    library.update("CC", Some(Card::Next));
    let mut pause = 0;
    let mut next = 0;
    for _ in 0..400 {
        match library.get_random() {
            Some(Card::Pause) => pause += 1,
            Some(Card::Next) => next += 1,
            other => panic!("not a bound action: {:?}", other),
        }
    }
    assert!(pause > 0);
    assert!(next > 0);
}

#[test]
fn entries_list_every_card_once() {
    let library = sample();
    let mut entries = library.entries();
    entries.sort_by(|a, b| a.0.cmp(&b.0));
    assert_eq!(
        entries,
        vec![
            ("04A1B2C3D4E5F601".to_string(), Some(Card::Play("music/first.mp3".to_string()))),
            ("04A1B2C3D4E5F602".to_string(), Some(Card::Pause)),
            ("04A1B2C3D4E5F603".to_string(), None),
        ]
    );
}

#[test]
fn library_round_trips_through_its_entries() {
    let library = sample();
    let rebuilt = Library::from_entries(&library.entries());
    let mut before = library.entries();
    let mut after = rebuilt.entries();
    before.sort_by(|a, b| a.0.cmp(&b.0));
    after.sort_by(|a, b| a.0.cmp(&b.0));
    assert_eq!(before, after);
    assert_eq!(rebuilt.get("04A1B2C3D4E5F601"), Some(&Card::play("music/first.mp3")));
    assert_eq!(rebuilt.get("04A1B2C3D4E5F602"), Some(&Card::Pause));
    assert!(rebuilt.contains("04A1B2C3D4E5F603"));
    assert_eq!(rebuilt.get("04A1B2C3D4E5F603"), None);
}

#[test]
fn library_round_trips_through_reordered_entries() {
    let library = sample();
    let mut entries = library.entries();
    entries.reverse();
    let rebuilt = Library::from_entries(&entries);
    for (card_id, card) in library.entries() {
        assert!(rebuilt.contains(&card_id));
        assert_eq!(rebuilt.get(&card_id), card.as_ref());
    }
    assert_eq!(rebuilt.entries().len(), 3);
}

#[test]
fn empty_library_round_trips() {
    let rebuilt = Library::from_entries(&Library::new().entries());
    assert!(rebuilt.entries().is_empty());
}

#[test]
fn from_entries_lets_the_later_line_count() {
    let entries = vec![
        ("AA".to_string(), Some(Card::Pause)),
        ("BB".to_string(), None),
        ("AA".to_string(), Some(Card::Shuffle)),
    ];
    let library = Library::from_entries(&entries);
    assert_eq!(library.get("AA"), Some(&Card::Shuffle));
    assert!(library.contains("BB"));
    assert_eq!(library.entries().len(), 2);
}
