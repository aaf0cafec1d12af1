use cube_api::cube::Cube;
use cube_api::handlers::{
    delete_cube, get_all_cubes, get_cube, get_cube_by_name, get_cube_by_type, insert_cube,
    update_cube, update_cube_by_name, HandlerError,
};
use cube_api::object_id::is_valid_object_id;
use cube_api::store::CubeStore;

fn pyraminx() -> Cube {
    Cube {
        id: None,
        name: "Pyraminx".to_string(),
        type_: "tetrahedron".to_string(),
        pieces: 4,
        faces: 4,
        stickers: 0,
        year_created: 1970,
        wr: "0.91s".to_string(),
    }
}

fn megaminx() -> Cube {
    Cube {
        id: None,
        name: "Megaminx".to_string(),
        type_: "dodecahedron".to_string(),
        pieces: 50,
        faces: 12,
        stickers: 132,
        year_created: 1982,
        wr: "27.22s".to_string(),
    }
}

#[test]
fn insert_then_get_by_name() {
    let mut store = CubeStore::new();
    let ack = insert_cube(&mut store, &pyraminx()).unwrap();
    assert!(is_valid_object_id(&ack.inserted_id));
    let fetched = get_cube_by_name(&store, "Pyraminx").unwrap();
    assert_eq!(fetched.id, Some(ack.inserted_id));
    assert_eq!(fetched.name, "Pyraminx");
    assert_eq!(fetched.type_, "tetrahedron");
    assert_eq!(fetched.pieces, 4);
    assert_eq!(fetched.faces, 4);
    assert_eq!(fetched.stickers, 0);
    assert_eq!(fetched.year_created, 1970);
    assert_eq!(fetched.wr, "0.91s");
}

#[test]
fn insert_then_get_by_id() {
    let mut store = CubeStore::new();
    let ack = insert_cube(&mut store, &pyraminx()).unwrap();
    let fetched = get_cube(&store, &ack.inserted_id).unwrap();
    let mut expected = pyraminx();
    expected.id = Some(ack.inserted_id);
    assert_eq!(fetched, expected);
}

#[test]
fn two_inserts_get_distinct_ids() {
    let mut store = CubeStore::new();
    let a = insert_cube(&mut store, &pyraminx()).unwrap();
    let b = insert_cube(&mut store, &megaminx()).unwrap();
    assert_ne!(a.inserted_id, b.inserted_id);
    assert_eq!(get_cube(&store, &a.inserted_id).unwrap().name, "Pyraminx");
    assert_eq!(get_cube(&store, &b.inserted_id).unwrap().name, "Megaminx");
}

#[test]
fn noop_update_preserves_record() {
    let mut store = CubeStore::new();
    let ack = insert_cube(&mut store, &pyraminx()).unwrap();
    let found = get_cube(&store, &ack.inserted_id).unwrap();
    let updated = update_cube(&mut store, &ack.inserted_id, &found).unwrap();
    assert_eq!(updated, found);
    let refetched = get_cube(&store, &ack.inserted_id).unwrap();
    assert_eq!(refetched, found);
}

#[test]
fn empty_id_is_invalid_request() {
    let store = CubeStore::new();
    assert_eq!(get_cube(&store, ""), Err(HandlerError::InvalidRequest));
}

#[test]
fn empty_params_rejected_before_store() {
    let mut store = CubeStore::new();
    let ack = insert_cube(&mut store, &pyraminx()).unwrap();
    assert_eq!(get_cube(&store, ""), Err(HandlerError::InvalidRequest));
    assert_eq!(get_cube_by_name(&store, ""), Err(HandlerError::InvalidRequest));
    assert_eq!(get_cube_by_type(&store, ""), Err(HandlerError::InvalidRequest));
    assert_eq!(
        update_cube(&mut store, "", &megaminx()),
        Err(HandlerError::InvalidRequest)
    );
    assert_eq!(
        update_cube_by_name(&mut store, "", &megaminx()),
        Err(HandlerError::InvalidRequest)
    );
    assert_eq!(delete_cube(&mut store, ""), Err(HandlerError::InvalidRequest));
    // the store was never touched
    let all = get_all_cubes(&store).unwrap();
    assert_eq!(all.len(), 1);
    let mut expected = pyraminx();
    expected.id = Some(ack.inserted_id);
    assert_eq!(all[0], expected);
}

#[test]
fn malformed_id_is_invalid_request() {
    let mut store = CubeStore::new();
    insert_cube(&mut store, &pyraminx()).unwrap();
    assert_eq!(get_cube(&store, "abc"), Err(HandlerError::InvalidRequest));
    assert_eq!(
        get_cube(&store, "zzzzzzzzzzzzzzzzzzzzzzzz"),
        Err(HandlerError::InvalidRequest)
    );
    assert_eq!(
        update_cube(&mut store, "not-an-identifier", &megaminx()),
        Err(HandlerError::InvalidRequest)
    );
    assert_eq!(
        delete_cube(&mut store, "0123456789abcdef0123456"),
        Err(HandlerError::InvalidRequest)
    );
    assert_eq!(get_all_cubes(&store).unwrap().len(), 1);
}

#[test]
fn missing_record_is_generic_failure_for_reads() {
    let store = CubeStore::new();
    assert_eq!(
        get_cube(&store, "0123456789abcdef01234567"),
        Err(HandlerError::OperationFailed)
    );
    assert_eq!(
        get_cube_by_name(&store, "Pyraminx"),
        Err(HandlerError::OperationFailed)
    );
}

#[test]
fn empty_category_is_empty_sequence() {
    let mut store = CubeStore::new();
    insert_cube(&mut store, &pyraminx()).unwrap();
    let cubes = get_cube_by_type(&store, "dodecahedron").unwrap();
    assert!(cubes.is_empty());
}

#[test]
fn category_lookup_returns_matches_in_order() {
    let mut store = CubeStore::new();
    let a = insert_cube(&mut store, &pyraminx()).unwrap();
    insert_cube(&mut store, &megaminx()).unwrap();
    let mut second = pyraminx();
    second.name = "Skewb".to_string();
    let c = insert_cube(&mut store, &second).unwrap();
    let cubes = get_cube_by_type(&store, "tetrahedron").unwrap();
    assert_eq!(cubes.len(), 2);
    assert_eq!(cubes[0].name, "Pyraminx");
    assert_eq!(cubes[0].id, Some(a.inserted_id));
    assert_eq!(cubes[1].name, "Skewb");
    assert_eq!(cubes[1].id, Some(c.inserted_id));
}

#[test]
fn get_all_returns_whole_collection() {
    let mut store = CubeStore::new();
    assert!(get_all_cubes(&store).unwrap().is_empty());
    insert_cube(&mut store, &pyraminx()).unwrap();
    insert_cube(&mut store, &megaminx()).unwrap();
    let all = get_all_cubes(&store).unwrap();
    assert_eq!(all.len(), 2);
    assert_eq!(all[0].name, "Pyraminx");
    assert_eq!(all[1].name, "Megaminx");
}

#[test]
fn update_nonexistent_id_is_not_found() {
    let mut store = CubeStore::new();
    insert_cube(&mut store, &pyraminx()).unwrap();
    let r = update_cube(&mut store, "ffffffffffffffffffffffff", &megaminx());
    assert_eq!(r, Err(HandlerError::NotFound));
    assert_eq!(get_all_cubes(&store).unwrap().len(), 1);
}

#[test]
fn update_replaces_all_fields_and_keeps_id() {
    let mut store = CubeStore::new();
    let ack = insert_cube(&mut store, &pyraminx()).unwrap();
    let updated = update_cube(&mut store, &ack.inserted_id, &megaminx()).unwrap();
    assert_eq!(updated.id, Some(ack.inserted_id.clone()));
    assert_eq!(updated.name, "Megaminx");
    assert_eq!(updated.pieces, 50);
    let refetched = get_cube(&store, &ack.inserted_id).unwrap();
    assert_eq!(refetched, updated);
}

#[test]
fn update_by_name_keeps_stored_id_when_body_has_none() {
    let mut store = CubeStore::new();
    let ack = insert_cube(&mut store, &pyraminx()).unwrap();
    let mut body = pyraminx();
    body.pieces = 6;
    let updated = update_cube_by_name(&mut store, "Pyraminx", &body).unwrap();
    assert_eq!(updated.id, Some(ack.inserted_id));
    assert_eq!(updated.pieces, 6);
}

#[test]
fn update_by_name_takes_id_from_body_when_present() {
    let mut store = CubeStore::new();
    let ack = insert_cube(&mut store, &pyraminx()).unwrap();
    let mut body = pyraminx();
    body.id = Some("00000000000000000000beef".to_string());
    let updated = update_cube_by_name(&mut store, "Pyraminx", &body).unwrap();
    assert_eq!(updated.id, Some("00000000000000000000beef".to_string()));
    assert_eq!(
        get_cube(&store, &ack.inserted_id),
        Err(HandlerError::OperationFailed)
    );
    assert_eq!(
        get_cube(&store, "00000000000000000000beef").unwrap().name,
        "Pyraminx"
    );
}

#[test]
fn update_by_name_with_malformed_body_id_is_invalid_request() {
    let mut store = CubeStore::new();
    insert_cube(&mut store, &pyraminx()).unwrap();
    let mut body = pyraminx();
    body.id = Some("oops".to_string());
    assert_eq!(
        update_cube_by_name(&mut store, "Pyraminx", &body),
        Err(HandlerError::InvalidRequest)
    );
}

#[test]
fn update_by_name_nonexistent_is_not_found() {
    let mut store = CubeStore::new();
    insert_cube(&mut store, &pyraminx()).unwrap();
    assert_eq!(
        update_cube_by_name(&mut store, "Gigaminx", &megaminx()),
        Err(HandlerError::NotFound)
    );
}

#[test]
fn update_by_name_that_renames_fails_the_refetch() {
    let mut store = CubeStore::new();
    insert_cube(&mut store, &pyraminx()).unwrap();
    let r = update_cube_by_name(&mut store, "Pyraminx", &megaminx());
    assert_eq!(r, Err(HandlerError::OperationFailed));
    // the replace itself went through: the record is now the new one
    assert_eq!(
        get_cube_by_name(&store, "Megaminx").unwrap().pieces,
        50
    );
}

#[test]
fn delete_removes_exactly_one_record_and_second_delete_fails() {
    let mut store = CubeStore::new();
    let ack = insert_cube(&mut store, &pyraminx()).unwrap();
    insert_cube(&mut store, &megaminx()).unwrap();
    let msg = delete_cube(&mut store, &ack.inserted_id).unwrap();
    assert_eq!(msg, "Cube successfully deleted!");
    assert_eq!(get_all_cubes(&store).unwrap().len(), 1);
    assert_eq!(
        delete_cube(&mut store, &ack.inserted_id),
        Err(HandlerError::OperationFailed)
    );
    assert_eq!(get_all_cubes(&store).unwrap().len(), 1);
}
