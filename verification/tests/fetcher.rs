use pickpocket::fetcher::{FetchAction, Fetcher, Phase, MAX_CONCURRENT_REQUESTS, MAX_PAGES, PAGE_SIZE};
use pickpocket::remote::{Page, RemoteItem};

fn titled(title: &str) -> RemoteItem {
    RemoteItem { resolved_title: Some(title.to_string()), given_title: None, given_url: None }
}

/// A page with the ids `from`, `from + 1`, .. `to - 1`.
fn page(from: usize, to: usize) -> Page {
    let mut items = Vec::new();
    for id in from..to {
        items.push((format!("{}", id), titled(&format!("title {}", id))));
    }
    Page { items }
}

fn full_page(number: usize) -> Page {
    page(number * PAGE_SIZE, (number + 1) * PAGE_SIZE)
}

#[test]
fn the_protocol_uses_pages_of_thirty_in_batches_of_five() {
    assert_eq!(PAGE_SIZE, 30);
    assert_eq!(MAX_CONCURRENT_REQUESTS, 5);
    assert_eq!(MAX_PAGES, 50);
}

#[test]
fn a_fetch_begins_with_the_page_at_offset_zero() {
    let (fetcher, action) = Fetcher::begin();
    assert_eq!(action, FetchAction::Request(vec![0]));
    assert_eq!(fetcher.phase(), Phase::First);
    assert!(fetcher.finish().is_none());
}

#[test]
fn a_short_first_page_ends_the_fetch_with_its_items() {
    let (mut fetcher, _) = Fetcher::begin();
    let action = fetcher.receive(&vec![Some(page(0, 12))]);
    assert_eq!(action, FetchAction::Complete);
    assert_eq!(fetcher.phase(), Phase::Complete);
    let items = fetcher.finish().unwrap();
    assert_eq!(items.len(), 12);
    assert_eq!(items.get("0"), Some(&titled("title 0")));
    assert_eq!(items.get("11"), Some(&titled("title 11")));
    assert_eq!(items.get("12"), None);
}

#[test]
fn a_short_first_page_ends_the_fetch_whatever_a_second_page_holds() {
    let (mut fetcher, _) = Fetcher::begin();
    let action = fetcher.receive(&vec![Some(page(0, 29)), Some(page(100, 130)), None]);
    assert_eq!(action, FetchAction::Complete);
    let again = fetcher.receive(&vec![Some(page(200, 230))]);
    assert_eq!(again, FetchAction::Complete);
    let items = fetcher.finish().unwrap();
    assert_eq!(items.len(), 29);
    assert!(!items.contains("100"));
    assert!(!items.contains("200"));
}

#[test]
fn an_empty_first_page_is_a_complete_set_of_nothing() {
    let (mut fetcher, _) = Fetcher::begin();
    assert_eq!(fetcher.receive(&vec![Some(page(0, 0))]), FetchAction::Complete);
    let items = fetcher.finish().unwrap();
    assert_eq!(items.len(), 0);
}

#[test]
fn an_unusable_first_page_fails_the_fetch() {
    let (mut fetcher, _) = Fetcher::begin();
    assert_eq!(fetcher.receive(&vec![None]), FetchAction::Failed);
    assert_eq!(fetcher.phase(), Phase::Failed);
    assert_eq!(fetcher.receive(&vec![Some(page(0, 5))]), FetchAction::Failed);
    assert!(fetcher.finish().is_none());
}

#[test]
fn no_answer_for_the_first_page_fails_the_fetch() {
    let (mut fetcher, _) = Fetcher::begin();
    assert_eq!(fetcher.receive(&vec![]), FetchAction::Failed);
    assert!(fetcher.finish().is_none());
}

#[test]
fn a_full_first_page_and_an_empty_second_page_give_the_first_page() {
    let (mut fetcher, _) = Fetcher::begin();
    let action = fetcher.receive(&vec![Some(full_page(0))]);
    assert_eq!(action, FetchAction::Request(vec![30, 60, 90, 120, 150]));
    assert_eq!(fetcher.phase(), Phase::Paging);
    let action = fetcher.receive(&vec![Some(page(0, 0)), None, None, None, None]);
    assert_eq!(action, FetchAction::Complete);
    let items = fetcher.finish().unwrap();
    assert_eq!(items.len(), 30);
    for id in 0..30 {
        assert_eq!(items.get(&format!("{}", id)), Some(&titled(&format!("title {}", id))));
    }
}

#[test]
fn what_follows_the_first_empty_page_of_a_batch_is_dropped() {
    let (mut fetcher, _) = Fetcher::begin();
    fetcher.receive(&vec![Some(full_page(0))]);
    let action = fetcher.receive(&vec![
        Some(full_page(1)),
        Some(page(60, 65)),
        Some(page(0, 0)),
        Some(full_page(4)),
        Some(full_page(5)),
    ]);
    assert_eq!(action, FetchAction::Complete);
    let items = fetcher.finish().unwrap();
    assert_eq!(items.len(), 65);
    assert!(items.contains("64"));
    assert!(!items.contains("120"));
}

#[test]
fn an_unusable_page_in_a_batch_ends_the_fetch_with_what_was_merged() {
    let (mut fetcher, _) = Fetcher::begin();
    fetcher.receive(&vec![Some(full_page(0))]);
    let action = fetcher.receive(&vec![Some(full_page(1)), None, Some(full_page(3))]);
    assert_eq!(action, FetchAction::Complete);
    let items = fetcher.finish().unwrap();
    assert_eq!(items.len(), 60);
    assert!(!items.contains("90"));
}

#[test]
fn answers_that_are_not_handed_in_count_as_unusable() {
    let (mut fetcher, _) = Fetcher::begin();
    fetcher.receive(&vec![Some(full_page(0))]);
    let action = fetcher.receive(&vec![Some(full_page(1)), Some(full_page(2))]);
    assert_eq!(action, FetchAction::Complete);
    assert_eq!(fetcher.finish().unwrap().len(), 90);
}

#[test]
fn answers_beyond_the_awaited_pages_are_ignored() {
    let (mut fetcher, _) = Fetcher::begin();
    fetcher.receive(&vec![Some(full_page(0))]);
    let action = fetcher.receive(&vec![
        Some(full_page(1)),
        Some(full_page(2)),
        Some(full_page(3)),
        Some(full_page(4)),
        Some(full_page(5)),
        Some(full_page(6)),
    ]);
    assert_eq!(action, FetchAction::Request(vec![180, 210, 240, 270, 300]));
    let action = fetcher.receive(&vec![None]);
    assert_eq!(action, FetchAction::Complete);
    let items = fetcher.finish().unwrap();
    assert_eq!(items.len(), 180);
    assert!(!items.contains("180"));
}

#[test]
fn a_short_page_after_the_first_does_not_end_the_fetch() {
    let (mut fetcher, _) = Fetcher::begin();
    fetcher.receive(&vec![Some(full_page(0))]);
    let action = fetcher.receive(&vec![
        Some(page(30, 31)),
        Some(page(60, 62)),
        Some(page(90, 93)),
        Some(page(120, 124)),
        Some(page(150, 155)),
    ]);
    assert_eq!(action, FetchAction::Request(vec![180, 210, 240, 270, 300]));
}

#[test]
fn the_fetch_ends_at_the_ceiling_of_fifty_following_pages() {
    let (mut fetcher, mut action) = Fetcher::begin();
    let mut requested: Vec<usize> = Vec::new();
    let mut rounds = 0;
    loop {
        let offsets = match action {
            FetchAction::Request(offsets) => offsets,
            FetchAction::Complete => break,
            FetchAction::Failed => panic!("the fetch failed"),
        };
        let mut answers = Vec::new();
        for offset in &offsets {
            requested.push(*offset);
            answers.push(Some(full_page(offset / PAGE_SIZE)));
        }
        action = fetcher.receive(&answers);
        rounds += 1;
    }
    assert_eq!(rounds, 11);
    assert_eq!(requested.len(), 51);
    let mut expected = Vec::new();
    for number in 0..51 {
        expected.push(number * PAGE_SIZE);
    }
    assert_eq!(requested, expected);
    assert_eq!(requested[50], PAGE_SIZE * MAX_PAGES);
    assert_eq!(fetcher.finish().unwrap().len(), 51 * 30);
}

#[test]
fn of_two_items_with_one_id_the_later_one_stays() {
    let (mut fetcher, _) = Fetcher::begin();
    let mut first = full_page(0);
    first.items[3].1 = titled("early");
    fetcher.receive(&vec![Some(first)]);
    let second = Page {
        items: vec![
            ("3".to_string(), titled("late")),
            ("77".to_string(), titled("a")),
            ("77".to_string(), titled("b")),
        ],
    };
    fetcher.receive(&vec![Some(second), None]);
    let items = fetcher.finish().unwrap();
    assert_eq!(items.len(), 31);
    assert_eq!(items.get("3"), Some(&titled("late")));
    assert_eq!(items.get("77"), Some(&titled("b")));
}

#[test]
fn the_order_of_the_pages_of_a_batch_does_not_change_the_ids() {
    let (mut one, _) = Fetcher::begin();
    one.receive(&vec![Some(full_page(0))]);
    let (mut other, _) = Fetcher::begin();
    other.receive(&vec![Some(full_page(0))]);
    let action_one = one.receive(&vec![
        Some(full_page(1)),
        Some(full_page(2)),
        Some(full_page(3)),
        Some(full_page(4)),
        Some(page(150, 151)),
    ]);
    let action_other = other.receive(&vec![
        Some(page(150, 151)),
        Some(full_page(3)),
        Some(full_page(1)),
        Some(full_page(4)),
        Some(full_page(2)),
    ]);
    assert_eq!(action_one, action_other);
    one.receive(&vec![None]);
    other.receive(&vec![None]);
    let mut ids_one = one.finish().unwrap().ids();
    let mut ids_other = other.finish().unwrap().ids();
    assert_eq!(ids_one.len(), 151);
    ids_one.sort();
    ids_other.sort();
    assert_eq!(ids_one, ids_other);
}

#[test]
fn bodies_are_read_as_json() {
    let (mut fetcher, _) = Fetcher::begin();
    let body = "{\"status\": 1, \"list\": {\"10\": {\"resolved_title\": \"ten\", \"given_url\": \"https://ten.example\"}}}";
    let action = fetcher.receive_bodies(&vec![Some(body.to_string())]);
    assert_eq!(action, FetchAction::Complete);
    let items = fetcher.finish().unwrap();
    assert_eq!(items.ids(), vec!["10".to_string()]);
    assert_eq!(
        items.get("10"),
        Some(&RemoteItem {
            resolved_title: Some("ten".to_string()),
            given_title: None,
            given_url: Some("https://ten.example".to_string()),
        })
    );
}

#[test]
fn a_body_that_cannot_be_read_or_is_missing_fails_the_first_page() {
    let (mut fetcher, _) = Fetcher::begin();
    assert_eq!(fetcher.receive_bodies(&vec![Some("<html>".to_string())]), FetchAction::Failed);
    let (mut fetcher, _) = Fetcher::begin();
    assert_eq!(fetcher.receive_bodies(&vec![None]), FetchAction::Failed);
    let (mut fetcher, _) = Fetcher::begin();
    assert_eq!(
        fetcher.receive_bodies(&vec![Some("{\"status\": 1}".to_string())]),
        FetchAction::Failed
    );
}

#[test]
fn a_body_with_an_empty_list_is_zero_articles_not_a_failure() {
    let (mut fetcher, _) = Fetcher::begin();
    let action = fetcher.receive_bodies(&vec![Some("{\"list\": {}}".to_string())]);
    assert_eq!(action, FetchAction::Complete);
    assert_eq!(fetcher.finish().unwrap().len(), 0);
}

#[test]
fn the_awaited_offsets_and_the_merged_items_can_be_looked_at() {
    let (mut fetcher, _) = Fetcher::begin();
    assert_eq!(fetcher.awaited(), vec![0]);
    fetcher.receive(&vec![Some(full_page(0))]);
    assert_eq!(fetcher.awaited(), vec![30, 60, 90, 120, 150]);
    assert_eq!(fetcher.items().len(), 30);
    fetcher.receive(&vec![None]);
    assert!(fetcher.awaited().is_empty());
}

#[test]
fn a_body_whose_list_is_an_empty_array_is_zero_articles() {
    let (mut fetcher, _) = Fetcher::begin();
    let action = fetcher.receive_bodies(&vec![Some("{\"status\": 2, \"list\": []}".to_string())]);
    assert_eq!(action, FetchAction::Complete);
    assert_eq!(fetcher.finish().unwrap().len(), 0);
}
