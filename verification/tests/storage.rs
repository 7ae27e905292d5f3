use paper_master::store::PaperStore;

#[test]
fn empty_store_counts_zero() {
    let store = PaperStore::new();
    assert_eq!(store.count(), 0);
    assert!(store.list_all().is_empty());
}

#[test]
fn count_is_one_after_one_insert() {
    let mut store = PaperStore::new();
    let id = store.insert(
        String::from("paper"),
        String::from("/data/papers/paper.pdf"),
        String::from("2024-01-01 10:00:00"),
    );
    assert_eq!(id, 1);
    assert_eq!(store.count(), 1);
}

#[test]
fn listing_is_newest_first() {
    let mut store = PaperStore::new();
    let a = store.insert(
        String::from("alpha"),
        String::from("/data/papers/alpha.pdf"),
        String::from("2024-01-01 10:00:00"),
    );
    let b = store.insert(
        String::from("beta"),
        String::from("/data/papers/beta.pdf"),
        String::from("2024-01-02 09:30:00"),
    );
    let c = store.insert(
        String::from("gamma"),
        String::from("/data/papers/gamma.pdf"),
        String::from("2024-01-02 09:30:00"),
    );
    assert_eq!((a, b, c), (1, 2, 3));
    assert_eq!(store.count(), 3);

    let listed = store.list_all();
    assert_eq!(listed.len(), 3);
    assert_eq!(listed[0].id, 3);
    assert_eq!(listed[0].title, "gamma");
    assert_eq!(listed[0].pdf_path, "/data/papers/gamma.pdf");
    assert_eq!(listed[0].created_at.as_deref(), Some("2024-01-02 09:30:00"));
    assert_eq!(listed[1].id, 2);
    assert_eq!(listed[1].title, "beta");
    assert_eq!(listed[2].id, 1);
    assert_eq!(listed[2].title, "alpha");
    for w in listed.windows(2) {
        assert!(w[0].created_at >= w[1].created_at);
    }
}

#[test]
fn identifiers_are_consecutive_from_one() {
    let mut store = PaperStore::new();
    for expected in 1..=5i64 {
        let id = store.insert(
            String::from("t"),
            format!("/data/papers/t_{expected}.pdf"),
            String::from("2024-03-05 08:00:00"),
        );
        assert_eq!(id, expected);
    }
    assert_eq!(store.count(), 5);
}
