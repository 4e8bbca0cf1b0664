use nf_rated::browse::{
    get_rating_style, item_type_label, query_offset, shortened_type, short_type_of_lowercase,
    App, Color, InputMode, Log, QueryField,
};
use nf_rated::query::ItemType;
use nf_rated::stateful_list::StatefulList;

#[test]
fn typing_edits_the_selected_filter() {
    let mut app = App::new(vec![]);
    assert_eq!(app.query_field, QueryField::Genre);
    assert_eq!(app.input_mode, InputMode::Querying);
    assert!(!app.has_any_query());
    app.push_onto_query('d');
    app.push_onto_query('r');
    assert_eq!(app.get_query(), "dr");
    assert!(app.has_any_query());
    app.next_query_field();
    assert_eq!(app.get_query(), "");
    app.push_onto_query('!');
    assert_eq!(app.title_query, "!");
    app.pop_off_query();
    app.pop_off_query();
    assert_eq!(app.title_query, "");
    app.prev_query_field();
    app.pop_off_query();
    assert_eq!(app.genre_query, "d");
    app.clear_all_queries();
    assert!(!app.has_any_query());
}

#[test]
fn bang_alone_is_no_query() {
    let mut app = App::new(vec![]);
    app.push_onto_query('!');
    assert!(!app.has_any_query());
}

#[test]
fn query_fields_cycle() {
    let mut app = App::new(vec![]);
    let order = [
        QueryField::Title,
        QueryField::Cast,
        QueryField::Country,
        QueryField::Language,
        QueryField::Plot,
        QueryField::Genre,
    ];
    for f in order.iter() {
        app.next_query_field();
        assert_eq!(app.query_field, *f);
    }
    app.prev_query_field();
    assert_eq!(app.query_field, QueryField::Plot);
    assert_eq!(query_offset(&QueryField::Genre), 2);
    assert_eq!(query_offset(&QueryField::Plot), 17);
    assert_eq!(QueryField::Language.label(), "Language");
}

#[test]
fn item_types_cycle() {
    let mut app = App::new(vec![]);
    assert_eq!(app.item_type, ItemType::Both);
    app.next_item_type();
    assert_eq!(app.item_type, ItemType::Movie);
    app.next_item_type();
    assert_eq!(app.item_type, ItemType::Series);
    app.next_item_type();
    assert_eq!(app.item_type, ItemType::Both);
    assert_eq!(item_type_label(&ItemType::Both), "Movies and Series");
}

#[test]
fn selection_wraps_round() {
    let mut list = StatefulList::with_items(vec![1, 2, 3]);
    assert_eq!(list.state.selected(), None);
    list.next();
    assert_eq!(list.state.selected(), Some(0));
    list.previous();
    assert_eq!(list.state.selected(), Some(2));
    list.next();
    assert_eq!(list.state.selected(), Some(0));
    list.next_page(2);
    assert_eq!(list.state.selected(), Some(2));
    list.next_page(2);
    assert_eq!(list.state.selected(), Some(0));
    list.previous_page(10);
    assert_eq!(list.state.selected(), Some(0));
    list.unselect();
    assert_eq!(list.state.selected(), None);
    let mut empty: StatefulList<u8> = StatefulList::new();
    empty.next();
    assert_eq!(empty.state.selected(), Some(0));
}

#[test]
fn rating_colours() {
    assert_eq!(get_rating_style(95), Color::LightGreen);
    assert_eq!(get_rating_style(80), Color::Green);
    assert_eq!(get_rating_style(79), Color::LightYellow);
    assert_eq!(get_rating_style(60), Color::Yellow);
    assert_eq!(get_rating_style(55), Color::LightBlue);
    assert_eq!(get_rating_style(45), Color::LightRed);
    assert_eq!(get_rating_style(0), Color::LightRed);
}

#[test]
fn short_types_ignore_case() {
    assert_eq!(shortened_type("MOVIE"), "M");
    assert_eq!(shortened_type("Series"), "S");
    assert_eq!(shortened_type("episode"), "X");
    assert_eq!(short_type_of_lowercase("movie"), "M");
    assert_eq!(short_type_of_lowercase("Movie"), "X");
}

#[test]
fn log_entries() {
    let e = Log::Error("boom".to_string());
    assert_eq!(e.prefix(), "ERR ");
    assert_eq!(e.message(), "boom");
    assert_eq!(e.color(), Color::Red);
    assert_eq!(Log::Debug("q".to_string()).prefix(), "DEBG");
    assert_eq!(Log::Info("i".to_string()).color(), Color::Yellow);
}
