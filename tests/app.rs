use mirro_rs::actions::Action;
use mirro_rs::app::{App, AppReturn, Effect};
use mirro_rs::archlinux::internal::{ArchMirrors, Mirror, Url};
use mirro_rs::clock::Timestamp;
use mirro_rs::export::export_urls;
use mirro_rs::io::IoEvent;
use mirro_rs::key::Key;
use mirro_rs::state::{AppState, Widgets};

fn mirror(url: &str) -> Mirror {
    Mirror {
        url: url.to_string(),
        protocol: "https".to_string(),
        last_sync: None,
        completion_pct: None,
        delay: None,
        duration_avg: None,
        duration_stddev: None,
        score: None,
        active: true,
        isos: true,
        ipv4: true,
        ipv6: false,
        details: String::new(),
    }
}

fn country(name: &str, urls: &[&str]) -> Url {
    Url {
        country: name.to_string(),
        country_code: name.chars().take(2).collect(),
        mirrors: urls.iter().map(|u| mirror(u)).collect(),
    }
}

fn catalog(countries: Vec<Url>) -> ArchMirrors {
    ArchMirrors {
        cutoff: 0,
        last_check: String::new(),
        num_checks: 0,
        check_frequency: 0,
        countries,
        version: 3,
    }
}

fn ready(countries: Vec<Url>) -> App {
    let mut app = App::new(Timestamp { secs: 0, nanos: 0 });
    app.update_mirrors(&catalog(countries));
    app.initialized();
    app
}

fn press(app: &mut App, key: Key) -> AppReturn {
    app.do_action(key).flow
}

#[test]
fn start_load_initialise_end_to_end() {
    let mut app = App::new(Timestamp { secs: 0, nanos: 0 });
    assert_eq!(*app.state(), AppState::Init);
    assert!(!app.is_loading());
    assert_eq!(app.actions().as_slice(), &[Action::Quit]);
    assert_eq!(app.actions().find(Key::Ctrl('c')), Some(Action::Quit));
    app.update_mirrors(&catalog(vec![country("France", &["https://fr.example/"])]));
    assert_eq!(app.mirrors().countries.len(), 1);
    app.initialized();
    assert!(app.state().is_initialized());
    assert_eq!(app.state().focused_widget(), Some(Widgets::CountryFilter));
    assert_eq!(app.state().duration(), Some(1000));
    assert_eq!(app.actions().find(Key::Ctrl('c')), Some(Action::Quit));
    assert_eq!(press(&mut app, Key::Ctrl('c')), AppReturn::Exit);
}

#[test]
fn keys_do_nothing_before_initialisation() {
    let mut app = App::new(Timestamp { secs: 0, nanos: 0 });
    assert_eq!(press(&mut app, Key::Ctrl('c')), AppReturn::Continue);
    assert_eq!(press(&mut app, Key::Char('a')), AppReturn::Continue);
    assert_eq!(app.country_filter(), "");
    assert_eq!(*app.state(), AppState::Init);
}

#[test]
fn selecting_twice_keeps_one_entry_and_removing_it_clears_cursor() {
    let mut app = ready(vec![country("France", &["a", "b"]), country("Germany", &["c"])]);
    press(&mut app, Key::Ctrl('a'));
    assert_eq!(app.state().focused_widget(), Some(Widgets::Mirrors));
    press(&mut app, Key::Down);
    assert_eq!(app.table_selected(), Some(0));
    press(&mut app, Key::Enter);
    assert_eq!(app.selected_countries().len(), 1);
    press(&mut app, Key::Char(' '));
    assert_eq!(app.selected_countries().len(), 1);
    let chosen = &app.selected_countries()[0];
    assert_eq!(chosen.country.country, "France");
    assert_eq!(chosen.country.mirrors.len(), 2);
    assert_eq!(chosen.search_item, "");
    assert_eq!(chosen.index, 0);

    press(&mut app, Key::Ctrl('o'));
    assert_eq!(app.state().focused_widget(), Some(Widgets::SelectedCountries));
    press(&mut app, Key::Char('j'));
    assert_eq!(app.selected_table_selected(), Some(0));
    assert_eq!(app.focused_country().country, "France");
    press(&mut app, Key::Enter);
    assert!(app.selected_countries().is_empty());
    assert_eq!(app.selected_table_selected(), None);
    press(&mut app, Key::Enter);
    assert!(app.selected_countries().is_empty());
}

#[test]
fn removal_keeps_cursor_on_the_row_or_the_last_one() {
    let mut app = ready(vec![country("A", &["1"]), country("B", &["2"]), country("C", &["3"])]);
    press(&mut app, Key::Ctrl('a'));
    for _ in 0..3 {
        press(&mut app, Key::Down);
        press(&mut app, Key::Enter);
    }
    assert_eq!(app.selected_countries().len(), 3);
    press(&mut app, Key::Ctrl('o'));
    press(&mut app, Key::Down);
    press(&mut app, Key::Down);
    assert_eq!(app.selected_table_selected(), Some(1));
    assert_eq!(app.focused_country().country, "B");
    press(&mut app, Key::Enter);
    assert_eq!(app.selected_table_selected(), Some(1));
    assert_eq!(app.selected_countries()[1].country.country, "C");
    press(&mut app, Key::Enter);
    assert_eq!(app.selected_table_selected(), Some(0));
    assert_eq!(app.selected_countries().len(), 1);
    assert_eq!(app.selected_countries()[0].country.country, "A");
}

#[test]
fn filter_edits_append_and_pop() {
    let mut app = ready(vec![country("Denmark", &["a"]), country("Germany", &["b"])]);
    press(&mut app, Key::Ctrl('a'));
    press(&mut app, Key::Down);
    assert_eq!(app.table_selected(), Some(0));
    press(&mut app, Key::Ctrl('f'));
    press(&mut app, Key::Char('d'));
    assert_eq!(app.table_selected(), None);
    press(&mut app, Key::Char('e'));
    assert_eq!(app.country_filter(), "de");
    press(&mut app, Key::Backspace);
    assert_eq!(app.country_filter(), "d");
    press(&mut app, Key::Char('e'));
    assert_eq!(app.country_filter(), "de");
    assert!(app.selected_countries().is_empty());
    assert_eq!(app.state().focused_widget(), Some(Widgets::CountryFilter));
}

#[test]
fn backspace_on_empty_filter_keeps_it_empty() {
    let mut app = ready(vec![]);
    press(&mut app, Key::Backspace);
    assert_eq!(app.country_filter(), "");
}

#[test]
fn selection_follows_the_filtered_list() {
    let mut app = ready(vec![
        country("Denmark", &["a"]),
        country("Germany", &["b"]),
        country("Netherlands", &["c"]),
    ]);
    press(&mut app, Key::Char('e'));
    press(&mut app, Key::Char('r'));
    assert_eq!(app.visible_rows(), vec![1, 2]);
    let mut twins = ready(vec![country("Spain", &["s"]), country("Spain", &["s"])]);
    assert_eq!(twins.visible_rows(), vec![0, 1]);
    press(&mut twins, Key::Char('x'));
    assert!(twins.visible_rows().is_empty());
    press(&mut app, Key::Ctrl('a'));
    press(&mut app, Key::Down);
    press(&mut app, Key::Down);
    assert_eq!(app.table_selected(), Some(1));
    press(&mut app, Key::Enter);
    let chosen = &app.selected_countries()[0];
    assert_eq!(chosen.country.country, "Netherlands");
    assert_eq!(chosen.search_item, "er");
    assert_eq!(chosen.index, 1);
}

#[test]
fn cursor_beyond_the_filtered_list_selects_nothing() {
    let mut app = ready(vec![country("Denmark", &["a"]), country("Germany", &["b"])]);
    press(&mut app, Key::Char('g'));
    press(&mut app, Key::Ctrl('a'));
    press(&mut app, Key::Down);
    press(&mut app, Key::Down);
    assert_eq!(app.table_selected(), Some(1));
    press(&mut app, Key::Enter);
    assert!(app.selected_countries().is_empty());
}

#[test]
fn scrolling_wraps_and_round_trips() {
    let mut app = ready(vec![country("A", &["1"]), country("B", &["2"]), country("C", &["3"])]);
    press(&mut app, Key::Ctrl('a'));
    press(&mut app, Key::Down);
    assert_eq!(app.table_selected(), Some(0));
    press(&mut app, Key::Char('k'));
    assert_eq!(app.table_selected(), Some(2));
    for _ in 0..5 {
        press(&mut app, Key::Down);
    }
    assert_eq!(app.table_selected(), Some(1));
    for _ in 0..5 {
        press(&mut app, Key::Up);
    }
    assert_eq!(app.table_selected(), Some(2));
    press(&mut app, Key::Char('j'));
    assert_eq!(app.table_selected(), Some(0));
}

#[test]
fn scrolling_an_empty_table_leaves_cursor_unset() {
    let mut app = ready(vec![]);
    press(&mut app, Key::Ctrl('a'));
    press(&mut app, Key::Down);
    assert_eq!(app.table_selected(), None);
    press(&mut app, Key::Up);
    assert_eq!(app.table_selected(), None);
    press(&mut app, Key::Ctrl('o'));
    press(&mut app, Key::Down);
    assert_eq!(app.selected_table_selected(), None);
}

#[test]
fn sleep_asks_for_io_and_marks_loading() {
    let mut app = ready(vec![]);
    let reaction = app.do_action(Key::Ctrl('s'));
    assert_eq!(reaction.flow, AppReturn::Continue);
    assert!(matches!(reaction.effect, Effect::Io(IoEvent::Sleep(1000))));
    assert!(app.is_loading());
    app.loaded();
    assert!(!app.is_loading());
    app.slept();
    assert_eq!(app.state().count_sleep(), Some(1));
}

#[test]
fn dispatch_marks_loading_and_returns_the_event() {
    let mut app = App::new(Timestamp { secs: 0, nanos: 0 });
    assert_eq!(app.dispatch(IoEvent::Initialise), IoEvent::Initialise);
    assert!(app.is_loading());
    assert_eq!(app.update_on_tick(), AppReturn::Continue);
}

#[test]
fn export_hands_over_the_selection() {
    let mut app = ready(vec![country("France", &["https://a/", "https://b/"]), country("Spain", &["https://c/"])]);
    press(&mut app, Key::Ctrl('a'));
    press(&mut app, Key::Down);
    press(&mut app, Key::Enter);
    press(&mut app, Key::Down);
    press(&mut app, Key::Enter);
    let reaction = app.do_action(Key::Ctrl('e'));
    assert_eq!(reaction.flow, AppReturn::Continue);
    match reaction.effect {
        Effect::Export { countries, rate } => {
            assert!(!rate);
            assert_eq!(export_urls(&countries), vec!["https://a/", "https://b/", "https://c/"]);
        }
        _ => panic!("expected an export"),
    }
    match app.do_action(Key::Ctrl('r')).effect {
        Effect::Export { countries, rate } => {
            assert!(rate);
            assert_eq!(countries.len(), 2);
        }
        _ => panic!("expected an export"),
    }
}

#[test]
fn unmapped_key_changes_nothing() {
    let mut app = ready(vec![country("A", &["1"])]);
    let reaction = app.do_action(Key::Tab);
    assert_eq!(reaction.flow, AppReturn::Continue);
    assert!(matches!(reaction.effect, Effect::Nothing));
    assert_eq!(app.country_filter(), "");
    assert_eq!(app.table_selected(), None);
}

#[test]
fn focus_keys_move_the_focus() {
    let mut app = ready(vec![]);
    press(&mut app, Key::Ctrl('p'));
    assert_eq!(app.state().focused_widget(), Some(Widgets::Protocols));
    press(&mut app, Key::Char('x'));
    assert_eq!(app.country_filter(), "");
    press(&mut app, Key::Ctrl('o'));
    assert_eq!(app.state().focused_widget(), Some(Widgets::SelectedCountries));
    press(&mut app, Key::Ctrl('f'));
    assert_eq!(app.state().focused_widget(), Some(Widgets::CountryFilter));
}

#[test]
fn clock_updates() {
    let mut app = App::new(Timestamp { secs: 0, nanos: 0 });
    assert_eq!(App::new(Timestamp { secs: 7, nanos: 3 }).clock(), Timestamp { secs: 7, nanos: 3 });
    let t = Timestamp { secs: 10, nanos: 5 };
    app.update_clock(t);
    assert_eq!(app.clock(), t);
}
