use cms_core::ctx::Ctx;
use cms_core::error::ModelError;
use cms_core::filter::{compile, CondOp, FilterTerm, ListOptions, OrderBy, DEFAULT_LIMIT, MAX_LIMIT};
use cms_core::models::edit::{EditBmc, EditForCreate};
use cms_core::models::author::{author_descriptor, AuthorBmc, AuthorForCreate, AuthorForEdit, AuthorForResult};
use cms_core::models::post::{post_descriptor, PostBmc, PostForCreate, PostForUpdate};
use cms_core::models::state::AppState;

fn author(name: &str, email: &str) -> AuthorForCreate {
    AuthorForCreate {
        name: name.to_string(),
        email: email.to_string(),
        password_hash: "hash".to_string(),
    }
}

fn post(title: &str, weight: i64) -> PostForCreate {
    PostForCreate { title: title.to_string(), content: format!("{} body", title), weight }
}

#[test]
fn duplicate_email_is_a_constraint_violation() {
    let ctx = Ctx::root_ctx();
    let mut app_state = AppState::new();
    let id = AuthorBmc::create(&ctx, &mut app_state, author("A", "a@x.com")).unwrap();
    assert_eq!(id, 1);
    let r = AuthorBmc::create(&ctx, &mut app_state, author("B", "a@x.com"));
    assert_eq!(r, Err(ModelError::ConstraintViolation { field: "email" }));
    assert_eq!(AuthorBmc::list(&ctx, &app_state, None, None).unwrap().len(), 1);
    let id2 = AuthorBmc::create(&ctx, &mut app_state, author("B", "b@x.com")).unwrap();
    assert_eq!(id2, 2);
}

#[test]
fn author_result_hides_credentials() {
    let ctx = Ctx::root_ctx();
    let mut app_state = AppState::new();
    let id = AuthorBmc::create(&ctx, &mut app_state, author("A", "a@x.com")).unwrap();
    let a = AuthorBmc::get(&ctx, &app_state, id).unwrap();
    assert_eq!(a.password_hash, "hash");
    let shown = AuthorForResult::from_author(&a);
    assert_eq!(shown.id, id);
    assert_eq!(shown.name, "A");
    assert_eq!(shown.email, "a@x.com");
    assert_eq!(
        AuthorBmc::get(&ctx, &app_state, 5).err(),
        Some(ModelError::EntityNotFound { entity: "authors", id: 5 })
    );
}

#[test]
fn post_round_trip_and_partial_update() {
    let ctx = Ctx::root_ctx();
    let mut app_state = AppState::new();
    let id = PostBmc::create(&ctx, &mut app_state, post("first", 3), 100).unwrap();
    let p = PostBmc::get(&ctx, &app_state, id).unwrap();
    assert_eq!(p.title, "first");
    assert_eq!(p.content, "first body");
    assert_eq!(p.weight, 3);
    assert_eq!(p.created_at, 100);
    PostBmc::update(
        &ctx,
        &mut app_state,
        id,
        PostForUpdate { title: None, content: None, weight: Some(9) },
        150,
    )
    .unwrap();
    let p = PostBmc::get(&ctx, &app_state, id).unwrap();
    assert_eq!(p.title, "first");
    assert_eq!(p.weight, 9);
    assert_eq!(p.created_at, 100);
    assert_eq!(p.updated_at, 150);
    let r = PostBmc::update(
        &ctx,
        &mut app_state,
        42,
        PostForUpdate { title: None, content: None, weight: None },
        1,
    );
    assert_eq!(r, Err(ModelError::EntityNotFound { entity: "posts", id: 42 }));
}

#[test]
fn cache_follows_post_mutations() {
    let ctx = Ctx::root_ctx();
    let mut app_state = AppState::new();
    assert!(app_state.cache.cached_posts().is_none());
    let a = PostBmc::create(&ctx, &mut app_state, post("a", 1), 1).unwrap();
    PostBmc::create(&ctx, &mut app_state, post("b", 2), 2).unwrap();
    PostBmc::create(&ctx, &mut app_state, post("c", 3), 3).unwrap();
    app_state.cache.refresh_posts(&app_state.posts);
    {
        let snap = app_state.cache.cached_posts().unwrap();
        assert_eq!(snap.len(), 3);
        let titles: Vec<&str> = snap.iter().map(|p| p.title.as_str()).collect();
        assert_eq!(titles, vec!["a", "b", "c"]);
    }
    PostBmc::delete(&ctx, &mut app_state, a).unwrap();
    app_state.cache.refresh_posts(&app_state.posts);
    let snap = app_state.cache.cached_posts().unwrap();
    assert_eq!(snap.len(), 2);
    assert_eq!(snap[0].title, "b");
    assert_eq!(snap[1].title, "c");
}

#[test]
fn initialize_cache_builds_both_snapshots() {
    let ctx = Ctx::root_ctx();
    let mut app_state = AppState::new();
    AuthorBmc::create(&ctx, &mut app_state, author("A", "a@x.com")).unwrap();
    app_state.cache = cms_core::cache::Cache::new();
    assert!(app_state.cache.cached_authors().is_none());
    app_state.initialize_cache();
    assert_eq!(app_state.cache.cached_authors().unwrap().len(), 1);
    assert_eq!(app_state.cache.cached_posts().unwrap().len(), 0);
}

#[test]
fn referenced_post_cannot_be_deleted() {
    let ctx = Ctx::root_ctx();
    let mut app_state = AppState::new();
    AuthorBmc::create(&ctx, &mut app_state, author("A", "a@x.com")).unwrap();
    let p = PostBmc::create(&ctx, &mut app_state, post("a", 1), 1).unwrap();
    EditBmc::create(
        &ctx,
        &mut app_state,
        EditForCreate { post_id: p, new_content: "x".to_string(), editor_id: 1 },
        2,
    )
    .unwrap();
    assert_eq!(
        PostBmc::delete(&ctx, &mut app_state, p),
        Err(ModelError::ConstraintViolation { field: "post_id" })
    );
    assert_eq!(
        PostBmc::delete(&ctx, &mut app_state, 77),
        Err(ModelError::EntityNotFound { entity: "posts", id: 77 })
    );
}

#[test]
fn unfiltered_list_is_every_row_in_id_order() {
    let ctx = Ctx::root_ctx();
    let mut app_state = AppState::new();
    for i in 0..5 {
        PostBmc::create(&ctx, &mut app_state, post("p", 10 - i), 0).unwrap();
    }
    let all = PostBmc::list(&ctx, &app_state, None, None).unwrap();
    let ids: Vec<i64> = all.iter().map(|p| p.id).collect();
    assert_eq!(ids, vec![1, 2, 3, 4, 5]);
    let page = PostBmc::list(&ctx, &app_state, None, Some(ListOptions { limit: Some(2), offset: Some(3), order_by: None }))
        .unwrap();
    let ids: Vec<i64> = page.iter().map(|p| p.id).collect();
    assert_eq!(ids, vec![4, 5]);
    let past = PostBmc::list(&ctx, &app_state, None, Some(ListOptions { limit: None, offset: Some(9), order_by: None }))
        .unwrap();
    assert!(past.is_empty());
}

#[test]
fn filter_on_weight_range() {
    let ctx = Ctx::root_ctx();
    let mut app_state = AppState::new();
    for w in [5, 1, 8, 3] {
        PostBmc::create(&ctx, &mut app_state, post("p", w), 0).unwrap();
    }
    let terms = vec![
        FilterTerm { field: "weight".to_string(), op: CondOp::Gte(3) },
        FilterTerm { field: "weight".to_string(), op: CondOp::NotEq(8) },
    ];
    let found = PostBmc::list(&ctx, &app_state, Some(terms), None).unwrap();
    let weights: Vec<i64> = found.iter().map(|p| p.weight).collect();
    assert_eq!(weights, vec![5, 3]);
    let terms = vec![FilterTerm { field: "id".to_string(), op: CondOp::NotIn(vec![1, 2]) }];
    let found = PostBmc::list(&ctx, &app_state, Some(terms), None).unwrap();
    assert_eq!(found.len(), 2);
    assert_eq!(found[0].id, 3);
}

#[test]
fn undeclared_filter_field_is_rejected() {
    let ctx = Ctx::root_ctx();
    let mut app_state = AppState::new();
    PostBmc::create(&ctx, &mut app_state, post("p", 1), 0).unwrap();
    let terms = vec![FilterTerm { field: "title".to_string(), op: CondOp::Eq(1) }];
    let r = PostBmc::list(&ctx, &app_state, Some(terms), None);
    assert_eq!(r.err(), Some(ModelError::InvalidFilterField));
    let terms = vec![FilterTerm { field: "email".to_string(), op: CondOp::Eq(1) }];
    let r = AuthorBmc::list(&ctx, &app_state, Some(terms), None);
    assert_eq!(r.err(), Some(ModelError::InvalidFilterField));
}

#[test]
fn undeclared_field_outranks_forbidden_operator() {
    let d = post_descriptor();
    let terms = vec![
        FilterTerm { field: "weight".to_string(), op: CondOp::Is(true) },
        FilterTerm { field: "nope".to_string(), op: CondOp::Eq(1) },
    ];
    assert_eq!(compile(&d, Some(terms), None).err(), Some(ModelError::InvalidFilterField));
    let terms = vec![FilterTerm { field: "weight".to_string(), op: CondOp::Is(true) }];
    assert_eq!(compile(&d, Some(terms), None).err(), Some(ModelError::InvalidFilterOperator));
    let terms = vec![
        FilterTerm { field: "nope".to_string(), op: CondOp::Eq(1) },
        FilterTerm { field: "weight".to_string(), op: CondOp::Is(true) },
    ];
    assert_eq!(compile(&d, Some(terms), None).err(), Some(ModelError::InvalidFilterField));
}

#[test]
fn limits_default_and_cap() {
    let d = author_descriptor();
    let q = compile(&d, None, None).unwrap();
    assert_eq!(q.limit, DEFAULT_LIMIT);
    assert_eq!(q.limit, 1000);
    assert_eq!(q.offset, 0);
    assert!(q.conds.is_empty());
    let q = compile(&d, None, Some(ListOptions { limit: Some(1_000_000), offset: Some(4), order_by: None })).unwrap();
    assert_eq!(q.limit, MAX_LIMIT);
    assert_eq!(q.limit, 5000);
    assert_eq!(q.offset, 4);
    let q = compile(&d, Some(vec![FilterTerm { field: "id".to_string(), op: CondOp::Lt(3) }]), None)
        .unwrap();
    assert_eq!(q.conds.len(), 1);
    assert_eq!(q.conds[0].column, 0);
}

#[test]
fn author_update_keeps_emails_unique() {
    let ctx = Ctx::root_ctx();
    let mut app_state = AppState::new();
    let a = AuthorBmc::create(&ctx, &mut app_state, author("A", "a@x.com")).unwrap();
    let b = AuthorBmc::create(&ctx, &mut app_state, author("B", "b@x.com")).unwrap();
    let r = AuthorBmc::update(
        &ctx,
        &mut app_state,
        b,
        AuthorForEdit { name: None, email: Some("a@x.com".to_string()) },
    );
    assert_eq!(r, Err(ModelError::ConstraintViolation { field: "email" }));
    // Keeping one's own email is no conflict.
    AuthorBmc::update(
        &ctx,
        &mut app_state,
        a,
        AuthorForEdit { name: Some("Ann".to_string()), email: Some("a@x.com".to_string()) },
    )
    .unwrap();
    let got = AuthorBmc::get(&ctx, &app_state, a).unwrap();
    assert_eq!(got.name, "Ann");
    assert_eq!(got.email, "a@x.com");
    assert_eq!(got.password_hash, "hash");
    let snap = app_state.cache.cached_authors().unwrap();
    assert_eq!(snap[0].name, "Ann");
    let r = AuthorBmc::update(&ctx, &mut app_state, 9, AuthorForEdit { name: None, email: None });
    assert_eq!(r, Err(ModelError::EntityNotFound { entity: "authors", id: 9 }));
}

fn by(field: &str, descending: bool, limit: Option<usize>) -> Option<ListOptions> {
    Some(ListOptions {
        limit,
        offset: None,
        order_by: Some(OrderBy { field: field.to_string(), descending }),
    })
}

#[test]
fn ordered_listing_breaks_ties_by_id() {
    let ctx = Ctx::root_ctx();
    let mut app_state = AppState::new();
    for w in [5, 1, 5, 3] {
        PostBmc::create(&ctx, &mut app_state, post("p", w), 0).unwrap();
    }
    let asc = PostBmc::list(&ctx, &app_state, None, by("weight", false, None)).unwrap();
    let ids: Vec<i64> = asc.iter().map(|p| p.id).collect();
    assert_eq!(ids, vec![2, 4, 1, 3]);
    let desc = PostBmc::list(&ctx, &app_state, None, by("weight", true, None)).unwrap();
    let ids: Vec<i64> = desc.iter().map(|p| p.id).collect();
    assert_eq!(ids, vec![1, 3, 4, 2]);
    let top = PostBmc::list(&ctx, &app_state, None, by("weight", true, Some(2))).unwrap();
    let ids: Vec<i64> = top.iter().map(|p| p.id).collect();
    assert_eq!(ids, vec![1, 3]);
    let by_id_desc = PostBmc::list(&ctx, &app_state, None, by("id", true, None)).unwrap();
    let ids: Vec<i64> = by_id_desc.iter().map(|p| p.id).collect();
    assert_eq!(ids, vec![4, 3, 2, 1]);
}

#[test]
fn ordering_by_undeclared_field_is_rejected() {
    let ctx = Ctx::root_ctx();
    let app_state = AppState::new();
    let r = PostBmc::list(&ctx, &app_state, None, by("title", false, None));
    assert_eq!(r.err(), Some(ModelError::InvalidFilterField));
    // A bad filter term is reported before a bad ordering.
    let terms = vec![FilterTerm { field: "weight".to_string(), op: CondOp::Is(true) }];
    let r = PostBmc::list(&ctx, &app_state, Some(terms), by("title", false, None));
    assert_eq!(r.err(), Some(ModelError::InvalidFilterOperator));
}
