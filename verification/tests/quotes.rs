use cch24::day_nineteen::{list_offset, list_page, TokenStore};

#[test]
fn store_keeps_a_token_until_it_is_taken() {
    let mut store = TokenStore::new();
    let a = "aaaaaaaaaaaaaaaa".to_string();
    let b = "bbbbbbbbbbbbbbbb".to_string();
    assert_eq!(store.remove(&a), None);
    store.insert(a.clone(), 3);
    store.insert(b.clone(), 6);
    assert_eq!(store.remove(&a), Some(3));
    assert_eq!(store.remove(&a), None);
    assert_eq!(store.remove(&b), Some(6));
    assert_eq!(store.remove(&b), None);
}

#[test]
fn insert_replaces_an_offset() {
    let mut store = TokenStore::default();
    let a = "aaaaaaaaaaaaaaaa".to_string();
    store.insert(a.clone(), 3);
    store.insert(a.clone(), 9);
    assert_eq!(store.remove(&a), Some(9));
    assert_eq!(store.remove(&a), None);
}

#[test]
fn list_starts_at_zero_without_a_token() {
    let mut store = TokenStore::new();
    assert_eq!(list_offset(&mut store, None), Some(0));
    let unknown = "0123456789abcdef".to_string();
    assert_eq!(list_offset(&mut store, Some(&unknown)), None);
}

#[test]
fn last_page_has_no_token() {
    let mut store = TokenStore::new();
    for fetched in 0..=3usize {
        let page = list_page(&mut store, 0, fetched);
        assert_eq!(page.next_token, None);
        assert_eq!(page.page, 1);
        assert_eq!(page.quotes, fetched);
    }
    let page = list_page(&mut store, 6, 2);
    assert_eq!(page.page, 3);
    assert_eq!(page.quotes, 2);
    assert_eq!(page.next_token, None);
}

#[test]
fn token_leads_to_the_next_page_once() {
    let mut store = TokenStore::new();
    let offset = list_offset(&mut store, None).unwrap();
    let first = list_page(&mut store, offset, 4);
    assert_eq!(first.page, 1);
    assert_eq!(first.quotes, 3);
    let token = first.next_token.unwrap();
    assert_eq!(token.chars().count(), 16);
    assert!(token.chars().all(|c| c.is_ascii_alphanumeric()));

    let offset = list_offset(&mut store, Some(&token)).unwrap();
    assert_eq!(offset, 3);
    let second = list_page(&mut store, offset, 4);
    assert_eq!(second.page, 2);
    assert_eq!(second.quotes, 3);
    let next = second.next_token.unwrap();
    assert_ne!(next, token);

    assert_eq!(list_offset(&mut store, Some(&token)), None);
    assert_eq!(list_offset(&mut store, Some(&next)), Some(6));
    assert_eq!(list_offset(&mut store, Some(&next)), None);
}
