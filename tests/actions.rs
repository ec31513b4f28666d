use mirro_rs::actions::{Action, ActionConflict, Actions};
use mirro_rs::key::Key;
use mirro_rs::state::Widgets;

#[test]
fn should_find_action_by_key() {
    let actions: Actions = Actions::new(vec![Action::Quit, Action::Sleep]).unwrap();
    let result = actions.find(Key::Ctrl('c'));
    assert_eq!(result, Some(Action::Quit));
}

#[test]
fn should_find_action_by_key_not_found() {
    let actions: Actions = Actions::new(vec![Action::Quit, Action::Sleep]).unwrap();
    let result = actions.find(Key::Alt('w'));
    assert_eq!(result, None);
}

#[test]
fn should_create_actions_from_vec() {
    let _actions: Actions = Actions::new(vec![
        Action::Quit,
        Action::Sleep,
        Action::Focus(Widgets::CountryFilter),
        Action::Focus(Widgets::Protocols),
        Action::Focus(Widgets::Mirrors),
    ])
    .unwrap();
}

#[test]
#[should_panic]
fn should_panic_when_create_actions_conflict_key() {
    let _actions: Actions = Actions::new(vec![
        Action::Quit,
        Action::Sleep,
        Action::Sleep,
        Action::Quit,
        Action::Focus(Widgets::CountryFilter),
        Action::Focus(Widgets::Protocols),
        Action::Focus(Widgets::Mirrors),
        Action::Focus(Widgets::CountryFilter),
        Action::Focus(Widgets::Protocols),
        Action::Focus(Widgets::Mirrors),
    ])
    .unwrap();
}

#[test]
fn conflict_names_the_shared_key_and_both_entries() {
    let result = Actions::new(vec![Action::Sleep, Action::Quit, Action::Quit]);
    assert_eq!(
        result.unwrap_err(),
        ActionConflict { key: Key::Ctrl('c'), first: Action::Quit, second: Action::Quit }
    );
}

#[test]
fn empty_table_is_accepted_and_finds_nothing() {
    let actions = Actions::new(vec![]).unwrap();
    assert_eq!(actions.find(Key::Ctrl('c')), None);
    assert_eq!(actions.find(Key::Char('a')), None);
}

#[test]
fn every_key_finds_its_owner_in_the_full_table() {
    let all = Action::iterator();
    assert_eq!(all.len(), 9);
    let actions = Actions::new(all.clone()).unwrap();
    for action in all.iter() {
        for key in action.keys() {
            assert_eq!(actions.find(key), Some(*action));
        }
    }
    assert_eq!(actions.find(Key::Ctrl('a')), Some(Action::Focus(Widgets::Mirrors)));
    assert_eq!(actions.find(Key::Char('q')), Some(Action::Action));
    assert_eq!(actions.find(Key::Char('A')), None);
    assert_eq!(actions.find(Key::Tab), None);
}

#[test]
fn key_outside_the_live_table_is_ignored() {
    let actions = Actions::new(vec![Action::Quit]).unwrap();
    assert_eq!(actions.find(Key::Ctrl('s')), None);
    assert_eq!(actions.find(Key::Enter), None);
}

#[test]
fn generic_action_keys() {
    let keys = Action::Action.keys();
    assert_eq!(keys.len(), 32);
    assert_eq!(keys[0], Key::Char('a'));
    assert_eq!(keys[25], Key::Char('z'));
    assert_eq!(keys[26], Key::Char(' '));
    assert_eq!(&keys[27..], &[Key::Up, Key::Enter, Key::Down, Key::Backspace, Key::Esc]);
    assert_eq!(Action::Quit.keys(), vec![Key::Ctrl('c')]);
    assert_eq!(Action::RateExport.keys(), vec![Key::Ctrl('r')]);
}

#[test]
fn action_labels() {
    assert_eq!(Action::Quit.label(), "Quit");
    assert_eq!(Action::Focus(Widgets::CountryFilter).label(), "Focus Filter");
    assert_eq!(Action::Focus(Widgets::Mirrors).label(), "Focus Mirrors");
    assert_eq!(Widgets::Protocols.label(), "Protocols");
}
