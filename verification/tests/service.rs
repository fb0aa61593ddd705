use posts_cache::errors::ServiceError;
use posts_cache::models::post::Post;
use posts_cache::services::post_service::{
    create_post, delete_post, get_post, get_posts, poll, update_post,
};
use posts_cache::store::CacheStore;

fn post(title: &str, body: &str, user_id: u32) -> Post {
    Post {
        id: 0,
        title: String::from(title),
        body: String::from(body),
        userId: user_id,
        user: None,
    }
}

#[test]
fn create_assigns_id_and_round_trips() {
    let mut store = CacheStore::new();
    let created = create_post(&mut store, post("first", "hello", 7)).unwrap();
    assert_eq!(created.id, 1);
    assert_eq!(created.title, "first");
    assert_eq!(created.body, "hello");
    assert_eq!(created.userId, 7);
    assert!(created.user.is_none());

    let read = get_post(&store, created.id).unwrap();
    assert_eq!(read.id, created.id);
    assert_eq!(read.title, "first");
    assert_eq!(read.body, "hello");
    assert_eq!(read.userId, 7);
    assert!(read.user.is_none());
}

#[test]
fn get_post_not_found() {
    let mut store = CacheStore::new();
    assert!(matches!(get_post(&store, 5), Err(ServiceError::NotFound)));
    let created = create_post(&mut store, post("a", "b", 1)).unwrap();
    assert!(matches!(
        get_post(&store, created.id + 1),
        Err(ServiceError::NotFound)
    ));
}

#[test]
fn update_overwrites_row() {
    let mut store = CacheStore::new();
    let created = create_post(&mut store, post("old title", "old body", 1)).unwrap();
    let mut changed = post("new title", "new body", 2);
    changed.id = created.id;
    let updated = update_post(&mut store, changed).unwrap();
    assert_eq!(updated.id, created.id);
    assert_eq!(updated.title, "new title");

    let read = get_post(&store, created.id).unwrap();
    assert_eq!(read.title, "new title");
    assert_eq!(read.body, "new body");
    assert_eq!(read.userId, 2);
}

#[test]
fn update_missing_mutates_nothing() {
    let mut store = CacheStore::new();
    create_post(&mut store, post("keep", "me", 1)).unwrap();
    let mut stray = post("x", "y", 9);
    stray.id = 42;
    assert!(matches!(
        update_post(&mut store, stray),
        Err(ServiceError::NotFound)
    ));
    let rows = get_posts(&store).unwrap();
    assert_eq!(rows.len(), 1);
    assert_eq!(rows[0].title, "keep");
    assert_eq!(rows[0].body, "me");
}

#[test]
fn delete_removes_exactly_one_row() {
    let mut store = CacheStore::new();
    let a = create_post(&mut store, post("a", "1", 1)).unwrap();
    let b = create_post(&mut store, post("b", "2", 1)).unwrap();
    assert_eq!(delete_post(&mut store, a.id).unwrap(), true);
    let rows = get_posts(&store).unwrap();
    assert_eq!(rows.len(), 1);
    assert_eq!(rows[0].id, b.id);
    assert!(matches!(get_post(&store, a.id), Err(ServiceError::NotFound)));
}

#[test]
fn delete_missing_mutates_nothing() {
    let mut store = CacheStore::new();
    create_post(&mut store, post("only", "row", 3)).unwrap();
    assert!(matches!(
        delete_post(&mut store, 999),
        Err(ServiceError::NotFound)
    ));
    let rows = get_posts(&store).unwrap();
    assert_eq!(rows.len(), 1);
    assert_eq!(rows[0].title, "only");
}

#[test]
fn list_returns_rows_in_insertion_order() {
    let mut store = CacheStore::new();
    create_post(&mut store, post("one", "b1", 1)).unwrap();
    create_post(&mut store, post("two", "b2", 2)).unwrap();
    create_post(&mut store, post("three", "b3", 3)).unwrap();
    let rows = get_posts(&store).unwrap();
    assert_eq!(rows.len(), 3);
    assert_eq!(rows[0].title, "one");
    assert_eq!(rows[1].title, "two");
    assert_eq!(rows[2].title, "three");
    assert!(rows[0].id < rows[1].id && rows[1].id < rows[2].id);
    assert!(rows.iter().all(|p| p.user.is_none()));
}

#[test]
fn poll_replaces_cache_and_returns_fetched_list() {
    let mut store = CacheStore::new();
    create_post(&mut store, post("stale", "gone soon", 1)).unwrap();
    let fetched = vec![
        post("r1", "remote 1", 10),
        post("r2", "remote 2", 11),
        post("r3", "remote 3", 12),
    ];
    let returned = poll(&mut store, fetched).unwrap();
    assert_eq!(returned.len(), 3);
    assert_eq!(returned[0].title, "r1");

    let rows = get_posts(&store).unwrap();
    assert_eq!(rows.len(), 3);
    assert_eq!(rows[0].title, "r1");
    assert_eq!(rows[1].title, "r2");
    assert_eq!(rows[2].title, "r3");
    assert_eq!(rows[0].userId, 10);
    // identifiers are reassigned by the cache, continuing past earlier ones
    assert!(rows[0].id > 1);
    assert!(rows[0].id < rows[1].id && rows[1].id < rows[2].id);
}

#[test]
fn poll_empty_remote_preserves_cache() {
    let mut store = CacheStore::new();
    create_post(&mut store, post("keep a", "1", 1)).unwrap();
    create_post(&mut store, post("keep b", "2", 2)).unwrap();
    let returned = poll(&mut store, Vec::new()).unwrap();
    assert!(returned.is_empty());
    let rows = get_posts(&store).unwrap();
    assert_eq!(rows.len(), 2);
    assert_eq!(rows[0].title, "keep a");
    assert_eq!(rows[1].title, "keep b");
}

#[test]
fn poll_twice_same_remote_same_contents() {
    let fetched = || vec![post("r1", "b1", 1), post("r2", "b2", 2)];
    let mut store = CacheStore::new();
    poll(&mut store, fetched()).unwrap();
    let first: Vec<(String, String, u32)> = get_posts(&store)
        .unwrap()
        .into_iter()
        .map(|p| (p.title, p.body, p.userId))
        .collect();
    let first_ids: Vec<u32> = get_posts(&store).unwrap().iter().map(|p| p.id).collect();
    poll(&mut store, fetched()).unwrap();
    let second: Vec<(String, String, u32)> = get_posts(&store)
        .unwrap()
        .into_iter()
        .map(|p| (p.title, p.body, p.userId))
        .collect();
    let second_ids: Vec<u32> = get_posts(&store).unwrap().iter().map(|p| p.id).collect();
    assert_eq!(first, second);
    // the contents agree even though the identifiers were reassigned
    assert_ne!(first_ids, second_ids);
}

#[test]
fn poll_failure_retains_previous_rows() {
    // Open a store whose identifier counter is nearly exhausted, so the
    // bulk insert must give up partway through the fetched list.
    let mut store = CacheStore::with_next_id(u32::MAX - 2);
    create_post(&mut store, post("pre-sync", "survives", 5)).unwrap();
    let fetched = vec![post("r1", "b1", 1), post("r2", "b2", 2), post("r3", "b3", 3)];
    assert!(matches!(
        poll(&mut store, fetched),
        Err(ServiceError::StoreError)
    ));
    let rows = get_posts(&store).unwrap();
    assert_eq!(rows.len(), 1);
    assert_eq!(rows[0].title, "pre-sync");
    assert_eq!(rows[0].body, "survives");
}

#[test]
fn create_fails_when_ids_exhausted() {
    let mut store = CacheStore::with_next_id(u32::MAX);
    assert!(matches!(
        create_post(&mut store, post("none", "left", 1)),
        Err(ServiceError::StoreError)
    ));
    assert!(get_posts(&store).unwrap().is_empty());
}

#[test]
fn many_creates_distinct_ids() {
    let mut store = CacheStore::new();
    let mut ids = Vec::new();
    for k in 0..5u32 {
        let created = create_post(&mut store, post("t", "b", k)).unwrap();
        ids.push(created.id);
    }
    let rows = get_posts(&store).unwrap();
    assert_eq!(rows.len(), 5);
    for i in 0..ids.len() {
        for j in (i + 1)..ids.len() {
            assert_ne!(ids[i], ids[j]);
        }
    }
}

#[test]
fn post_new_builds_the_given_post() {
    let p = Post::new(4, String::from("t"), String::from("b"), 9, None);
    assert_eq!(p.id, 4);
    assert_eq!(p.title, "t");
    assert_eq!(p.body, "b");
    assert_eq!(p.userId, 9);
    assert!(p.user.is_none());
}
