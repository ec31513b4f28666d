use mirro_rs::state::{AppState, Widgets, DEFAULT_SLEEP_MILLIS};

#[test]
fn init_state_has_nothing() {
    let state = AppState::default();
    assert_eq!(state, AppState::Init);
    assert!(!state.is_initialized());
    assert_eq!(state.duration(), None);
    assert_eq!(state.focused_widget(), None);
    assert_eq!(state.count_sleep(), None);
    assert_eq!(state.count_tick(), None);
}

#[test]
fn initialized_state_has_defaults() {
    let state = AppState::initialized();
    assert!(state.is_initialized());
    assert_eq!(state.duration(), Some(1000));
    assert_eq!(DEFAULT_SLEEP_MILLIS, 1000);
    assert_eq!(state.focused_widget(), Some(Widgets::CountryFilter));
    assert_eq!(state.count_sleep(), Some(0));
    assert_eq!(state.count_tick(), Some(0));
}

#[test]
fn counters_count_only_once_initialized() {
    let mut init = AppState::Init;
    init.incr_sleep();
    init.incr_tick();
    assert_eq!(init, AppState::Init);

    let mut state = AppState::initialized();
    state.incr_sleep();
    state.incr_sleep();
    state.incr_tick();
    assert_eq!(state.count_sleep(), Some(2));
    assert_eq!(state.count_tick(), Some(1));
}

#[test]
fn counters_saturate() {
    let mut state = AppState::Initialized {
        duration: 1000,
        counter_sleep: u32::MAX,
        counter_tick: u64::MAX,
        focused_widget: Widgets::Mirrors,
    };
    state.incr_sleep();
    state.incr_tick();
    assert_eq!(state.count_sleep(), Some(u32::MAX));
    assert_eq!(state.count_tick(), Some(u64::MAX));
}

#[test]
fn focus_change_restarts_the_counters() {
    let mut state = AppState::initialized();
    state.incr_sleep();
    state.incr_tick();
    state.update_focused_widget(Widgets::SelectedCountries);
    assert_eq!(state.focused_widget(), Some(Widgets::SelectedCountries));
    assert_eq!(state.count_sleep(), Some(0));
    assert_eq!(state.count_tick(), Some(0));
    assert_eq!(state.duration(), Some(1000));

    let mut fresh = AppState::Init;
    fresh.update_focused_widget(Widgets::Mirrors);
    assert_eq!(fresh.focused_widget(), Some(Widgets::Mirrors));
}
