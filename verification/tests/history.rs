use bombadil::page::{back_entry_index, forward_entry_index, NavigationEntry, NavigationHistory};
use url::Url;

fn entry(id: u32, url: &str) -> NavigationEntry {
    NavigationEntry { id, title: format!("page {id}"), url: Url::parse(url).unwrap() }
}

#[test]
fn history_keeps_the_real_entries_around_the_current_one() {
    let entries = vec![
        entry(1, "about:blank"),
        entry(2, "http://localhost/a"),
        entry(3, "http://localhost/b"),
        entry(4, "about:blank"),
        entry(5, "http://localhost/c"),
    ];
    let history = NavigationHistory::from_entries(entries, 2);
    let ids = |es: &Vec<NavigationEntry>| es.iter().map(|e| e.id).collect::<Vec<_>>();
    assert_eq!(ids(&history.back), vec![2]);
    assert_eq!(history.current.id, 3);
    assert_eq!(ids(&history.forward), vec![5]);
}

#[test]
fn the_current_entry_is_kept_even_when_blank() {
    let entries = vec![entry(1, "about:blank")];
    let history = NavigationHistory::from_entries(entries, 0);
    assert!(history.back.is_empty());
    assert_eq!(history.current.id, 1);
    assert!(history.forward.is_empty());
}

#[test]
fn going_back_from_the_first_entry_is_refused() {
    assert_eq!(back_entry_index(0, 3), None);
    assert_eq!(back_entry_index(2, 3), Some(1));
}

#[test]
fn going_forward_from_the_last_entry_is_refused() {
    assert_eq!(forward_entry_index(2, 3), None);
    assert_eq!(forward_entry_index(1, 3), Some(2));
    assert_eq!(forward_entry_index(-1, 3), Some(0));
    assert_eq!(forward_entry_index(-5, 3), None);
}
