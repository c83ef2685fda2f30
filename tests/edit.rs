use cms_core::ctx::Ctx;
use cms_core::error::ModelError;
use cms_core::filter::{CondOp, FilterTerm, ListOptions};
use cms_core::models::author::{AuthorBmc, AuthorForCreate};
use cms_core::models::edit::{EditBmc, EditFilter, EditForCreate, EditForResult, EditForUpdate, EditStatus};
use cms_core::models::post::{PostBmc, PostForCreate};
use cms_core::models::state::AppState;

fn seeded() -> AppState {
    let ctx = Ctx::root_ctx();
    let mut app_state = AppState::new();
    AuthorBmc::create(
        &ctx,
        &mut app_state,
        AuthorForCreate {
            name: "name".to_string(),
            email: "email@mail".to_string(),
            password_hash: "password".to_string(),
        },
    )
    .unwrap();
    PostBmc::create(
        &ctx,
        &mut app_state,
        PostForCreate {
            title: "test_list_ok-post 01".to_string(),
            content: "content 01".to_string(),
            weight: 1000,
        },
        10,
    )
    .unwrap();
    app_state
}

#[test]
fn test_create_ok() {
    let mut app_state = seeded();
    let ctx = Ctx::root_ctx();
    let posts = PostBmc::list(&ctx, &app_state, None, None).unwrap();
    let editors = AuthorBmc::list(&ctx, &app_state, None, None).unwrap();
    let post = &posts[0];
    let editor = &editors[0];

    let fx_new_content = "Here is a suggestion";
    let fx_post_id = post.id;
    let fx_editor_id = editor.id;

    let edit_c = EditForCreate {
        new_content: fx_new_content.to_string(),
        post_id: fx_post_id,
        editor_id: fx_editor_id,
    };

    let id = EditBmc::create(&ctx, &mut app_state, edit_c, 20).unwrap();
    let edit = EditBmc::get(&ctx, &app_state, id).unwrap();

    assert_eq!(edit.new_content, fx_new_content);
    assert_eq!(edit.post_id, fx_post_id);
    assert_eq!(edit.editor_id, fx_editor_id);

    EditBmc::delete(&ctx, &mut app_state, id).unwrap();
}

#[test]
fn test_get_err_not_found() {
    let app_state = seeded();
    let ctx = Ctx::root_ctx();
    let fx_id = 100;

    let res = EditBmc::get(&ctx, &app_state, fx_id);

    assert!(
        matches!(
            res,
            Err(ModelError::EntityNotFound {
                entity: "edits",
                id: 100
            })
        ),
        "EntityNotFound not matching"
    );
}

fn new_edit(app_state: &mut AppState, content: &str) -> i64 {
    EditBmc::create(
        &Ctx::root_ctx(),
        app_state,
        EditForCreate { post_id: 1, new_content: content.to_string(), editor_id: 1 },
        30,
    )
    .unwrap()
}

#[test]
fn created_edit_is_pending_with_payload_fields() {
    let mut app_state = seeded();
    let id = new_edit(&mut app_state, "draft");
    assert_eq!(id, 1);
    let e = EditBmc::get(&Ctx::root_ctx(), &app_state, id).unwrap();
    assert_eq!(e.id, 1);
    assert_eq!(e.status, EditStatus::PENDING);
    assert_eq!(e.new_content, "draft");
    assert_eq!(e.created_at, 30);
    assert_eq!(e.updated_at, 30);
    let shown = EditForResult::from_edit(&e);
    assert_eq!(shown.new_content, "draft");
    assert_eq!(shown.status, EditStatus::PENDING);
}

#[test]
fn edit_create_needs_existing_post_and_editor() {
    let mut app_state = seeded();
    let ctx = Ctx::root_ctx();
    let r = EditBmc::create(
        &ctx,
        &mut app_state,
        EditForCreate { post_id: 9, new_content: "x".to_string(), editor_id: 1 },
        1,
    );
    assert_eq!(r, Err(ModelError::ConstraintViolation { field: "post_id" }));
    let r = EditBmc::create(
        &ctx,
        &mut app_state,
        EditForCreate { post_id: 1, new_content: "x".to_string(), editor_id: 9 },
        1,
    );
    assert_eq!(r, Err(ModelError::ConstraintViolation { field: "editor_id" }));
}

#[test]
fn accepted_edit_cannot_be_rejected_or_reopened() {
    let mut app_state = seeded();
    let ctx = Ctx::root_ctx();
    let id = new_edit(&mut app_state, "draft");
    EditBmc::update(
        &ctx,
        &mut app_state,
        id,
        EditForUpdate { new_content: None, status: Some(EditStatus::ACCEPTED) },
        40,
    )
    .unwrap();
    let e = EditBmc::get(&ctx, &app_state, id).unwrap();
    assert_eq!(e.status, EditStatus::ACCEPTED);
    assert_eq!(e.updated_at, 40);

    let r = EditBmc::update(
        &ctx,
        &mut app_state,
        id,
        EditForUpdate { new_content: None, status: Some(EditStatus::REJECTED) },
        50,
    );
    assert_eq!(r, Err(ModelError::InvalidTransition));
    let r = EditBmc::update(
        &ctx,
        &mut app_state,
        id,
        EditForUpdate { new_content: None, status: Some(EditStatus::PENDING) },
        50,
    );
    assert_eq!(r, Err(ModelError::InvalidTransition));
    let r = EditBmc::update(
        &ctx,
        &mut app_state,
        id,
        EditForUpdate { new_content: Some("late".to_string()), status: None },
        50,
    );
    assert_eq!(r, Err(ModelError::InvalidTransition));
    let e = EditBmc::get(&ctx, &app_state, id).unwrap();
    assert_eq!(e.status, EditStatus::ACCEPTED);
    assert_eq!(e.new_content, "draft");
}

#[test]
fn pending_edit_takes_partial_update() {
    let mut app_state = seeded();
    let ctx = Ctx::root_ctx();
    let id = new_edit(&mut app_state, "draft");
    EditBmc::update(
        &ctx,
        &mut app_state,
        id,
        EditForUpdate { new_content: Some("better".to_string()), status: None },
        25,
    )
    .unwrap();
    let e = EditBmc::get(&ctx, &app_state, id).unwrap();
    assert_eq!(e.new_content, "better");
    assert_eq!(e.status, EditStatus::PENDING);
    // An earlier clock never moves updated_at backwards.
    assert_eq!(e.updated_at, 30);
}

#[test]
fn update_of_missing_edit_is_not_found() {
    let mut app_state = seeded();
    let r = EditBmc::update(
        &Ctx::root_ctx(),
        &mut app_state,
        7,
        EditForUpdate { new_content: None, status: None },
        1,
    );
    assert_eq!(r, Err(ModelError::EntityNotFound { entity: "edits", id: 7 }));
}

#[test]
fn second_delete_is_not_found() {
    let mut app_state = seeded();
    let ctx = Ctx::root_ctx();
    let id = new_edit(&mut app_state, "draft");
    assert_eq!(EditBmc::delete(&ctx, &mut app_state, id), Ok(()));
    assert_eq!(
        EditBmc::delete(&ctx, &mut app_state, id),
        Err(ModelError::EntityNotFound { entity: "edits", id })
    );
    assert_eq!(
        EditBmc::get(&ctx, &app_state, id).err(),
        Some(ModelError::EntityNotFound { entity: "edits", id })
    );
}

#[test]
fn ids_are_not_reused_after_delete() {
    let mut app_state = seeded();
    let ctx = Ctx::root_ctx();
    let a = new_edit(&mut app_state, "a");
    EditBmc::delete(&ctx, &mut app_state, a).unwrap();
    let b = new_edit(&mut app_state, "b");
    assert_eq!(a, 1);
    assert_eq!(b, 2);
}

#[test]
fn edit_list_filters_by_status_and_post() {
    let mut app_state = seeded();
    let ctx = Ctx::root_ctx();
    let a = new_edit(&mut app_state, "a");
    let b = new_edit(&mut app_state, "b");
    let _c = new_edit(&mut app_state, "c");
    EditBmc::update(
        &ctx,
        &mut app_state,
        b,
        EditForUpdate { new_content: None, status: Some(EditStatus::REJECTED) },
        31,
    )
    .unwrap();
    let filter = EditFilter {
        id: None,
        editor_id: None,
        post_id: Some(CondOp::Eq(1)),
        status: Some(CondOp::In(vec![EditStatus::PENDING.code()])),
        new_content: None,
    };
    let found = EditBmc::list(&ctx, &app_state, Some(filter.into_terms()), None).unwrap();
    let ids: Vec<i64> = found.iter().map(|e| e.id).collect();
    assert_eq!(ids, vec![a, 3]);

    let found = EditBmc::list(
        &ctx,
        &app_state,
        None,
        Some(ListOptions { limit: Some(1), offset: Some(1), order_by: None }),
    )
    .unwrap();
    assert_eq!(found.len(), 1);
    assert_eq!(found[0].id, b);
}

#[test]
fn edit_list_rejects_comparison_on_status() {
    let app_state = seeded();
    let terms = vec![FilterTerm { field: "status".to_string(), op: CondOp::Gt(0) }];
    let r = EditBmc::list(&Ctx::root_ctx(), &app_state, Some(terms), None);
    assert_eq!(r.err(), Some(ModelError::InvalidFilterOperator));
}

#[test]
fn status_names_and_codes() {
    assert_eq!(EditStatus::PENDING.as_str(), "PENDING");
    assert_eq!(EditStatus::ACCEPTED.as_str(), "ACCEPTED");
    assert_eq!(EditStatus::REJECTED.as_str(), "REJECTED");
    assert_eq!(EditStatus::PENDING.code(), 0);
    assert_eq!(EditStatus::ACCEPTED.code(), 1);
    assert_eq!(EditStatus::REJECTED.code(), 2);
}

#[test]
fn edit_list_filters_by_content_text() {
    let mut app_state = seeded();
    let ctx = Ctx::root_ctx();
    new_edit(&mut app_state, "a");
    new_edit(&mut app_state, "b");
    new_edit(&mut app_state, "a");
    let filter = EditFilter {
        id: None,
        editor_id: None,
        post_id: None,
        status: None,
        new_content: Some(CondOp::TextEq("a".to_string())),
    };
    let found = EditBmc::list(&ctx, &app_state, Some(filter.into_terms()), None).unwrap();
    let ids: Vec<i64> = found.iter().map(|e| e.id).collect();
    assert_eq!(ids, vec![1, 3]);
    let terms = vec![FilterTerm { field: "new_content".to_string(), op: CondOp::TextNotEq("a".to_string()) }];
    let found = EditBmc::list(&ctx, &app_state, Some(terms), None).unwrap();
    assert_eq!(found.len(), 1);
    assert_eq!(found[0].id, 2);
    // Integer operators are not permitted on text, nor text operators on integers.
    let terms = vec![FilterTerm { field: "new_content".to_string(), op: CondOp::Eq(1) }];
    assert_eq!(
        EditBmc::list(&ctx, &app_state, Some(terms), None).err(),
        Some(ModelError::InvalidFilterOperator)
    );
    let terms = vec![FilterTerm { field: "post_id".to_string(), op: CondOp::TextEq("1".to_string()) }];
    assert_eq!(
        EditBmc::list(&ctx, &app_state, Some(terms), None).err(),
        Some(ModelError::InvalidFilterOperator)
    );
}

#[test]
fn undeclared_field_anywhere_gives_invalid_field() {
    let app_state = seeded();
    let terms = vec![
        FilterTerm { field: "status".to_string(), op: CondOp::Lt(1) },
        FilterTerm { field: "bogus".to_string(), op: CondOp::Eq(1) },
    ];
    let r = EditBmc::list(&Ctx::root_ctx(), &app_state, Some(terms), None);
    assert_eq!(r.err(), Some(ModelError::InvalidFilterField));
}
