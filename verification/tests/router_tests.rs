use todos::router::{Method, Route, match_route};

#[test]
fn landing_page_is_get_only() {
    assert_eq!(match_route(Method::Get, "/"), Route::Index);
    assert_eq!(match_route(Method::Post, "/"), Route::Unmatched);
    assert_eq!(match_route(Method::Delete, "/"), Route::Unmatched);
}

#[test]
fn collection_routes_by_method() {
    assert_eq!(match_route(Method::Get, "/tasks"), Route::TodoList);
    assert_eq!(match_route(Method::Post, "/tasks"), Route::TodoCreate);
    assert_eq!(match_route(Method::Put, "/tasks"), Route::Unmatched);
    assert_eq!(match_route(Method::Other, "/tasks"), Route::Unmatched);
}

#[test]
fn item_routes_by_method_with_the_parsed_id() {
    assert_eq!(match_route(Method::Get, "/tasks/42"), Route::TodoRead(42));
    assert_eq!(match_route(Method::Put, "/tasks/42"), Route::TodoToggle(42));
    assert_eq!(match_route(Method::Delete, "/tasks/42"), Route::TodoDelete(42));
    assert_eq!(match_route(Method::Post, "/tasks/42"), Route::Unmatched);
}

#[test]
fn item_id_edge_values_parse() {
    assert_eq!(match_route(Method::Get, "/tasks/0"), Route::TodoRead(0));
    assert_eq!(
        match_route(Method::Get, "/tasks/2147483647"),
        Route::TodoRead(2147483647)
    );
    assert_eq!(match_route(Method::Get, "/tasks/007"), Route::TodoRead(7));
}

#[test]
fn item_id_out_of_range_or_malformed_is_unmatched() {
    assert_eq!(match_route(Method::Get, "/tasks/2147483648"), Route::Unmatched);
    assert_eq!(match_route(Method::Get, "/tasks/99999999999999999999"), Route::Unmatched);
    assert_eq!(match_route(Method::Get, "/tasks/"), Route::Unmatched);
    assert_eq!(match_route(Method::Get, "/tasks/abc"), Route::Unmatched);
    assert_eq!(match_route(Method::Get, "/tasks/12x"), Route::Unmatched);
    assert_eq!(match_route(Method::Get, "/tasks/-1"), Route::Unmatched);
    assert_eq!(match_route(Method::Get, "/tasks/1/2"), Route::Unmatched);
}

#[test]
fn unknown_paths_are_unmatched() {
    assert_eq!(match_route(Method::Get, ""), Route::Unmatched);
    assert_eq!(match_route(Method::Get, "/todos"), Route::Unmatched);
    assert_eq!(match_route(Method::Get, "/tasks2"), Route::Unmatched);
    assert_eq!(match_route(Method::Get, "tasks"), Route::Unmatched);
}
