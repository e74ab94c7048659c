use cedro::client::subscription::{SubscriptionKind, SubscriptionRegistry};

#[test]
fn add_returns_true_only_on_first_insert() {
    let mut r = SubscriptionRegistry::new();
    assert!(r.add(SubscriptionKind::Quote, "PETR4"));
    assert!(!r.add(SubscriptionKind::Quote, "PETR4"));
    assert_eq!(r.len(), 1);
}

#[test]
fn remove_returns_true_only_on_first_removal() {
    let mut r = SubscriptionRegistry::new();
    r.add(SubscriptionKind::BookDetailed, "VALE3");
    assert!(r.remove(SubscriptionKind::BookDetailed, "VALE3"));
    assert!(!r.remove(SubscriptionKind::BookDetailed, "VALE3"));
    assert!(r.is_empty());
}

#[test]
fn snapshot_is_independent_of_subsequent_mutations() {
    let mut r = SubscriptionRegistry::new();
    r.add(SubscriptionKind::Quote, "A");
    r.add(SubscriptionKind::Quote, "B");
    let snap = r.snapshot();
    r.add(SubscriptionKind::Quote, "C");
    assert_eq!(snap.len(), 2);
    assert_eq!(r.len(), 3);
}

#[test]
fn filter_by_kind() {
    let mut r = SubscriptionRegistry::new();
    r.add(SubscriptionKind::Quote, "PETR4");
    r.add(SubscriptionKind::Quote, "VALE3");
    r.add(SubscriptionKind::Trades, "PETR4");
    let quotes = r.snapshot_by_kind(SubscriptionKind::Quote);
    assert_eq!(quotes.len(), 2);
    assert!(quotes.contains(&"PETR4".to_owned()));
    assert!(quotes.contains(&"VALE3".to_owned()));
    let books = r.snapshot_by_kind(SubscriptionKind::BookDetailed);
    assert!(books.is_empty());
}
