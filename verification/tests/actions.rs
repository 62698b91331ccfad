use todos::actions::{todos_create, todos_delete, todos_index, todos_update};
use todos::data::{CreateTodo, Pagination, Todo, UpdateTodo};
use todos::status::{handle_error, StatusCode, REQUEST_TIMEOUT_SECS};
use todos::store::Store;

fn ids(listed: &[Todo]) -> Vec<u128> {
    let mut ids: Vec<u128> = listed.iter().map(|todo| todo.id()).collect();
    ids.sort();
    ids
}

#[test]
fn creating_buy_milk_answers_created_with_the_record() {
    let mut db = Store::new();
    let (status, todo) = todos_create(&mut db, &CreateTodo::new("buy milk".to_string()));
    assert_eq!(status, StatusCode::Created);
    assert_eq!(status.as_u16(), 201);
    assert_eq!(todo.text(), "buy milk");
    assert!(!todo.completed());
    assert_ne!(todo.id(), 0);
    let (_, again) = todos_create(&mut db, &CreateTodo::new("buy milk".to_string()));
    assert_eq!(again.text(), "buy milk");
    assert_ne!(again.id(), todo.id());
    assert_eq!(db.len(), 2);
}

#[test]
fn listing_two_created_records() {
    let mut db = Store::new();
    let (_, first) = todos_create(&mut db, &CreateTodo::new("buy milk".to_string()));
    let (_, second) = todos_create(&mut db, &CreateTodo::new("walk the dog".to_string()));
    let mut expected = vec![first.id(), second.id()];
    expected.sort();

    let all = todos_index(&Pagination::default(), &db);
    assert_eq!(all.len(), 2);
    assert_eq!(ids(&all), expected);

    let one = todos_index(&Pagination { offset: None, limit: Some(1) }, &db);
    assert_eq!(one.len(), 1);

    let next = todos_index(&Pagination { offset: Some(1), limit: Some(1) }, &db);
    assert_eq!(next.len(), 1);
    assert_ne!(next[0].id(), one[0].id());

    let past = todos_index(&Pagination { offset: Some(2), limit: Some(1) }, &db);
    assert!(past.is_empty());
}

#[test]
fn listing_an_empty_store_shows_nothing() {
    let db = Store::new();
    assert!(todos_index(&Pagination::default(), &db).is_empty());
    assert!(todos_index(&Pagination { offset: Some(3), limit: Some(2) }, &db).is_empty());
}

#[test]
fn updating_an_unknown_identifier_answers_not_found() {
    let mut db = Store::new();
    let (_, made) = todos_create(&mut db, &CreateTodo::new("buy milk".to_string()));
    let unknown = made.id() ^ 1;
    let response = todos_update(unknown, &mut db, &UpdateTodo::new(Some("changed".to_string()), Some(true)));
    match response {
        Ok(_) => panic!("there is no such record"),
        Err(status) => {
            assert_eq!(status, StatusCode::NotFound);
            assert_eq!(status.as_u16(), 404);
        }
    }
    let listed = todos_index(&Pagination::default(), &db);
    assert_eq!(listed.len(), 1);
    assert_eq!(listed[0].id(), made.id());
    assert_eq!(listed[0].text(), "buy milk");
    assert!(!listed[0].completed());
}

#[test]
fn updating_only_completed_keeps_the_text() {
    let mut db = Store::new();
    let (_, made) = todos_create(&mut db, &CreateTodo::new("buy milk".to_string()));
    let response = todos_update(made.id(), &mut db, &UpdateTodo::new(None, Some(true)));
    let updated = match response {
        Ok(todo) => todo,
        Err(status) => panic!("the record exists, yet the answer is {:?}", status),
    };
    assert_eq!(updated.id(), made.id());
    assert_eq!(updated.text(), "buy milk");
    assert!(updated.completed());
    let listed = todos_index(&Pagination::default(), &db);
    assert_eq!(listed.len(), 1);
    assert_eq!(listed[0].id(), made.id());
    assert_eq!(listed[0].text(), "buy milk");
    assert!(listed[0].completed());
}

#[test]
fn updating_the_text_keeps_the_identifier() {
    let mut db = Store::new();
    let (_, made) = todos_create(&mut db, &CreateTodo::new("buy milk".to_string()));
    let response = todos_update(made.id(), &mut db, &UpdateTodo::new(Some("buy oat milk".to_string()), None));
    let updated = match response {
        Ok(todo) => todo,
        Err(status) => panic!("the record exists, yet the answer is {:?}", status),
    };
    assert_eq!(updated.id(), made.id());
    assert_eq!(updated.text(), "buy oat milk");
    assert!(!updated.completed());
    assert_eq!(db.len(), 1);
}

#[test]
fn deleting_twice_answers_no_content_then_not_found() {
    let mut db = Store::new();
    let (_, keep) = todos_create(&mut db, &CreateTodo::new("buy milk".to_string()));
    let (_, gone) = todos_create(&mut db, &CreateTodo::new("walk the dog".to_string()));

    let status = todos_delete(gone.id(), &mut db);
    assert_eq!(status, StatusCode::NoContent);
    assert_eq!(status.as_u16(), 204);
    assert!(db.get(gone.id()).is_none());
    let listed = todos_index(&Pagination::default(), &db);
    assert_eq!(ids(&listed), vec![keep.id()]);

    let status = todos_delete(gone.id(), &mut db);
    assert_eq!(status, StatusCode::NotFound);
    assert_eq!(status.as_u16(), 404);
    assert_eq!(db.len(), 1);
}

#[test]
fn deleting_from_an_empty_store_answers_not_found() {
    let mut db = Store::new();
    assert_eq!(todos_delete(42, &mut db), StatusCode::NotFound);
    assert_eq!(db.len(), 0);
}

#[test]
fn many_creations_never_share_an_identifier() {
    let mut db = Store::new();
    let mut made: Vec<u128> = Vec::new();
    for round in 0..500 {
        let (status, todo) = todos_create(&mut db, &CreateTodo::new(format!("task {}", round)));
        assert_eq!(status, StatusCode::Created);
        made.push(todo.id());
    }
    made.sort();
    made.dedup();
    assert_eq!(made.len(), 500);
    assert_eq!(db.len(), 500);
    assert_eq!(ids(&todos_index(&Pagination::default(), &db)), made);
}

#[test]
fn status_codes_have_their_numbers() {
    assert_eq!(StatusCode::Created.as_u16(), 201);
    assert_eq!(StatusCode::NoContent.as_u16(), 204);
    assert_eq!(StatusCode::NotFound.as_u16(), 404);
    assert_eq!(StatusCode::RequestTimeout.as_u16(), 408);
    assert_eq!(StatusCode::InternalServerError.as_u16(), 500);
}

#[test]
fn a_request_out_of_time_is_answered_with_request_timeout() {
    assert_eq!(handle_error(true, "request timed out"), Ok(StatusCode::RequestTimeout));
    assert_eq!(handle_error(true, ""), Ok(StatusCode::RequestTimeout));
}

#[test]
fn any_other_failure_is_answered_with_internal_server_error() {
    assert_eq!(
        handle_error(false, "connection reset"),
        Err((
            StatusCode::InternalServerError,
            "Unhandled internal error: connection reset".to_string()
        ))
    );
    assert_eq!(
        handle_error(false, ""),
        Err((StatusCode::InternalServerError, "Unhandled internal error: ".to_string()))
    );
}

#[test]
fn requests_are_given_ten_seconds() {
    assert_eq!(REQUEST_TIMEOUT_SECS, 10);
}
