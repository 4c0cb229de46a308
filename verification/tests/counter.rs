use gui_logic::counter::App;

#[test]
fn fresh_counter_stands_at_zero() {
    assert_eq!(App::new().count(), 0);
    assert_eq!(App::default().count(), 0);
}

#[test]
fn three_clicks_show_three() {
    let mut app = App::new();
    app.on_click();
    app.on_click();
    let text = app.on_click();
    assert_eq!(text, "3");
    assert_eq!(app.count(), 3);
}

#[test]
fn first_click_shows_one() {
    let mut app = App::new();
    assert_eq!(app.on_click(), "1");
}

#[test]
fn each_click_shows_the_number_of_clicks() {
    let mut app = App::new();
    for n in 1usize..=1200 {
        assert_eq!(app.on_click(), n.to_string());
        assert_eq!(app.count(), n);
    }
}

#[test]
fn a_round_without_a_click_changes_nothing() {
    let mut app = App::new();
    assert_eq!(app.handle_actions(false), None);
    assert_eq!(app.count(), 0);
    app.on_click();
    assert_eq!(app.handle_actions(false), None);
    assert_eq!(app.count(), 1);
}

#[test]
fn a_round_with_a_click_counts_it() {
    let mut app = App::new();
    assert_eq!(app.handle_actions(true), Some(String::from("1")));
    assert_eq!(app.handle_actions(false), None);
    assert_eq!(app.handle_actions(true), Some(String::from("2")));
    assert_eq!(app.handle_actions(true), Some(String::from("3")));
    assert_eq!(app.count(), 3);
}
