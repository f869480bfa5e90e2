use pickpocket::article::Article;
use pickpocket::inventory::Inventory;
use pickpocket::library::Library;
use pickpocket::remote::RemoteItem;

fn article(id: &str) -> Article {
    Article {
        id: id.to_string(),
        url: format!("https://example.com/{}", id),
        title: format!("Article {}", id),
    }
}

fn unread(count: usize) -> Library {
    let mut articles = Vec::new();
    for id in 0..count {
        articles.push(article(&format!("{}", id)));
    }
    Library::from_articles(vec![], articles)
}

fn sorted(mut ids: Vec<String>) -> Vec<String> {
    ids.sort();
    ids
}

#[test]
fn a_new_library_is_empty() {
    let library = Library::new();
    let status = library.status();
    assert_eq!(status.read, 0);
    assert_eq!(status.unread, 0);
    assert!(library.read().is_empty());
    assert!(library.unread().is_empty());
}

#[test]
fn status_counts_both_buckets() {
    let library =
        Library::from_articles(vec![article("r")], vec![article("a"), article("b"), article("c")]);
    let status = library.status();
    assert_eq!(status.read, 1);
    assert_eq!(status.unread, 3);
}

#[test]
fn a_library_stores_each_article_under_its_id() {
    let mut late = article("a");
    late.title = "late".to_string();
    let library = Library::from_articles(vec![], vec![article("a"), article("b"), late.clone()]);
    assert_eq!(library.unread().ids(), vec!["a".to_string(), "b".to_string()]);
    assert_eq!(library.unread().get("a"), Some(&late));
    assert_eq!(library.unread().get("b"), Some(&article("b")));
}

#[test]
fn taking_a_chosen_article_moves_it_to_read() {
    let mut library = Library::from_articles(vec![], vec![article("1"), article("2")]);
    let taken = library.take("1");
    assert_eq!(taken, Some(article("1")));
    assert_eq!(library.unread().ids(), vec!["2".to_string()]);
    assert_eq!(library.unread().get("2"), Some(&article("2")));
    assert_eq!(library.read().ids(), vec!["1".to_string()]);
    assert_eq!(library.read().get("1"), Some(&article("1")));
}

#[test]
fn taking_an_unknown_article_changes_nothing() {
    let mut library = Library::from_articles(vec![article("r")], vec![article("1")]);
    assert_eq!(library.take("r"), None);
    assert_eq!(library.take("zzz"), None);
    assert_eq!(library.unread().ids(), vec!["1".to_string()]);
    assert_eq!(library.read().ids(), vec!["r".to_string()]);
}

#[test]
fn move_to_read_moves_one_article() {
    let mut library = Library::from_articles(vec![], vec![article("1"), article("2")]);
    library.move_to_read("2".to_string());
    assert_eq!(library.unread().ids(), vec!["1".to_string()]);
    assert_eq!(library.read().get("2"), Some(&article("2")));
    library.move_to_read("2".to_string());
    library.move_to_read("absent".to_string());
    let status = library.status();
    assert_eq!(status.read, 1);
    assert_eq!(status.unread, 1);
}

#[test]
fn a_random_unread_article_is_one_of_the_unread() {
    let library = unread(5);
    for _ in 0..20 {
        let drawn = library.random_unread_article().unwrap();
        assert_eq!(library.unread().get(&drawn.id), Some(&drawn));
    }
    assert_eq!(library.status().unread, 5);
}

#[test]
fn there_is_no_random_unread_article_in_an_empty_bucket() {
    let library = Library::from_articles(vec![article("r")], vec![]);
    assert_eq!(library.random_unread_article(), None);
}

#[test]
fn pick_moves_as_many_articles_as_asked_for() {
    for quantity in 0..=7 {
        let mut library = unread(7);
        let picked = library.pick(Some(quantity));
        assert_eq!(picked.len(), quantity);
        let status = library.status();
        assert_eq!(status.unread, 7 - quantity);
        assert_eq!(status.read, quantity);
        let ids: Vec<String> = picked.iter().map(|a| a.id.clone()).collect();
        let mut distinct = sorted(ids.clone());
        distinct.dedup();
        assert_eq!(distinct.len(), quantity);
        for drawn in &picked {
            assert_eq!(drawn, &article(&drawn.id));
            assert_eq!(library.read().get(&drawn.id), Some(drawn));
            assert!(!library.unread().contains(&drawn.id));
        }
        assert_eq!(library.read().ids(), ids);
    }
}

#[test]
fn pick_without_a_quantity_moves_one_article() {
    let mut library = unread(3);
    let picked = library.pick(None);
    assert_eq!(picked.len(), 1);
    assert_eq!(library.status().unread, 2);
    assert_eq!(library.status().read, 1);
}

#[test]
fn pick_stops_when_nothing_is_unread() {
    let mut library = unread(3);
    let picked = library.pick(Some(10));
    assert_eq!(picked.len(), 3);
    assert_eq!(library.status().unread, 0);
    assert_eq!(library.status().read, 3);
    assert_eq!(
        sorted(picked.iter().map(|a| a.id.clone()).collect()),
        vec!["0".to_string(), "1".to_string(), "2".to_string()]
    );
}

#[test]
fn pick_on_an_empty_unread_bucket_changes_nothing() {
    let mut library = Library::from_articles(vec![article("r")], vec![]);
    let picked = library.pick(Some(4));
    assert!(picked.is_empty());
    assert_eq!(library.read().ids(), vec!["r".to_string()]);
    assert_eq!(library.read().get("r"), Some(&article("r")));
    assert!(library.unread().is_empty());
}

#[test]
fn pick_of_one_of_two_leaves_the_other_unread() {
    let mut library = Library::from_articles(vec![], vec![article("1"), article("2")]);
    let picked = library.pick(Some(1));
    assert_eq!(picked.len(), 1);
    let other = if picked[0].id == "1" { "2" } else { "1" };
    assert_eq!(picked[0], article(&picked[0].id));
    assert_eq!(library.unread().ids(), vec![other.to_string()]);
    assert_eq!(library.read().ids(), vec![picked[0].id.clone()]);
}

#[test]
fn a_read_article_that_is_unread_again_does_not_add_to_read() {
    let mut library = Library::from_articles(vec![article("1")], vec![article("1")]);
    let picked = library.pick(Some(1));
    assert_eq!(picked.len(), 1);
    assert_eq!(library.status().unread, 0);
    assert_eq!(library.status().read, 1);
}

fn fetched() -> Inventory<RemoteItem> {
    let mut items = Inventory::new();
    items.insert(
        "10".to_string(),
        RemoteItem {
            resolved_title: Some("Ten".to_string()),
            given_title: Some("ten".to_string()),
            given_url: Some("https://ten.example".to_string()),
        },
    );
    items.insert(
        "11".to_string(),
        RemoteItem { resolved_title: None, given_title: None, given_url: None },
    );
    items
}

#[test]
fn a_renewed_library_holds_the_fetched_set_as_unread() {
    let library = Library::renewed(&fetched());
    assert!(library.read().is_empty());
    assert_eq!(library.unread().ids(), vec!["10".to_string(), "11".to_string()]);
    assert_eq!(
        library.unread().get("10"),
        Some(&Article {
            id: "10".to_string(),
            url: "https://ten.example".to_string(),
            title: "Ten".to_string(),
        })
    );
    assert_eq!(
        library.unread().get("11"),
        Some(&Article { id: "11".to_string(), url: String::new(), title: "Untitled".to_string() })
    );
}

#[test]
fn renew_replaces_the_library_and_discards_what_was_unread() {
    let mut library = Library::from_articles(vec![article("r")], vec![article("old"), article("10")]);
    assert!(library.renew(Some(&fetched())));
    assert!(library.read().is_empty());
    assert_eq!(library.unread().ids(), vec!["10".to_string(), "11".to_string()]);
    assert_eq!(library.unread().get("10").unwrap().title, "Ten");
    assert!(!library.unread().contains("old"));
}

#[test]
fn renew_with_an_empty_set_leaves_an_empty_library() {
    let mut library = Library::from_articles(vec![article("r")], vec![article("old")]);
    assert!(library.renew(Some(&Inventory::new())));
    assert_eq!(library.status().read, 0);
    assert_eq!(library.status().unread, 0);
}

#[test]
fn renew_after_a_failed_fetch_leaves_the_library_untouched() {
    let mut library = Library::from_articles(vec![article("r")], vec![article("old")]);
    assert!(!library.renew(None));
    assert_eq!(library.read().ids(), vec!["r".to_string()]);
    assert_eq!(library.unread().ids(), vec!["old".to_string()]);
    assert_eq!(library.unread().get("old"), Some(&article("old")));
}

#[test]
fn the_read_articles_are_listed_once_each() {
    let library = Library::from_articles(vec![article("a"), article("b"), article("a")], vec![]);
    let read = library.read_articles();
    assert_eq!(read, vec![&article("a"), &article("b")]);
}

#[test]
fn a_library_is_made_again_from_the_lists_of_its_articles() {
    let mut library =
        Library::from_articles(vec![article("r")], vec![article("a"), article("b"), article("c")]);
    library.move_to_read("b".to_string());
    let (read, mut unread) = library.to_articles();
    assert_eq!(read, vec![article("r"), article("b")]);
    assert_eq!(unread, vec![article("a"), article("c")]);
    unread.reverse();
    let again = Library::from_articles(read, unread);
    assert_eq!(again.status(), library.status());
    for id in ["r", "b"] {
        assert_eq!(again.read().get(id), library.read().get(id));
        assert_eq!(again.read().get(id), Some(&article(id)));
    }
    for id in ["a", "c"] {
        assert_eq!(again.unread().get(id), library.unread().get(id));
        assert_eq!(again.unread().get(id), Some(&article(id)));
    }
    assert!(!again.unread().contains("b"));
}
