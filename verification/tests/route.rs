use frontend_core::route::{is_selectable_route, switch, Route, RouteDialog};

#[test]
fn switch_picks_the_dialog() {
    assert_eq!(switch(&Route::Home), RouteDialog::Hidden);
    assert_eq!(
        switch(&Route::Invitation { invitation_id: 7 }),
        RouteDialog::Hidden
    );
    assert_eq!(
        switch(&Route::Referrer {
            referrer: String::from("partner")
        }),
        RouteDialog::Hidden
    );
    assert_eq!(switch(&Route::Privacy), RouteDialog::Privacy);
    assert_eq!(switch(&Route::Terms), RouteDialog::Terms);
}

#[test]
fn selectable_routes() {
    assert!(is_selectable_route("/privacy/"));
    assert!(is_selectable_route("/terms/"));
    // A path parameter or extra depth keeps a route off the menu.
    assert!(!is_selectable_route("/invite/:invitation_id/"));
    assert!(!is_selectable_route("/referrer/:referrer/"));
    assert!(!is_selectable_route("/"));
    assert!(!is_selectable_route("/a/b/"));
    assert!(!is_selectable_route(""));
}
