use posts_cache::models::Endpoints;
use posts_cache::router::get_post_id;

#[test]
fn base_url_bulk_endpoints() {
    assert_eq!(
        Endpoints::base_url(Endpoints::GetPosts),
        "https://jsonplaceholder.typicode.com/posts"
    );
    assert_eq!(
        Endpoints::base_url(Endpoints::GetUsers),
        "https://jsonplaceholder.typicode.com/users/"
    );
    assert_eq!(
        Endpoints::base_url(Endpoints::GetTodos),
        "https://jsonplaceholder.typicode.com/todos/"
    );
}

#[test]
fn base_url_single_entity_endpoints() {
    assert_eq!(
        Endpoints::base_url(Endpoints::GetPost(12)),
        "https://jsonplaceholder.typicode.com/posts/12"
    );
    assert_eq!(
        Endpoints::base_url(Endpoints::GetPost(0)),
        "https://jsonplaceholder.typicode.com/posts/0"
    );
    assert_eq!(
        Endpoints::base_url(Endpoints::GetPost(u32::MAX)),
        "https://jsonplaceholder.typicode.com/posts/4294967295"
    );
    assert_eq!(
        Endpoints::base_url(Endpoints::GetUser(3)),
        "https://jsonplaceholder.typicode.com/users/3"
    );
}

#[test]
fn post_id_from_well_formed_paths() {
    assert_eq!(get_post_id("/api/posts/7"), 7);
    assert_eq!(get_post_id("/api/posts/123"), 123);
    assert_eq!(get_post_id("/api/posts/123/comments"), 123);
    assert_eq!(get_post_id("/api/posts/4294967295"), u32::MAX);
    assert_eq!(get_post_id("/api/posts/+5"), 5);
    assert_eq!(get_post_id("/api/posts/0"), 0);
}

#[test]
fn post_id_from_malformed_paths() {
    assert_eq!(get_post_id(""), 0);
    assert_eq!(get_post_id("/"), 0);
    assert_eq!(get_post_id("/api/posts"), 0);
    assert_eq!(get_post_id("/api/posts/"), 0);
    assert_eq!(get_post_id("/api/posts/abc"), 0);
    assert_eq!(get_post_id("/api/posts/12a"), 0);
    assert_eq!(get_post_id("/api/posts/+"), 0);
    assert_eq!(get_post_id("/api/posts/-4"), 0);
    // one past the largest representable identifier
    assert_eq!(get_post_id("/api/posts/4294967296"), 0);
}
