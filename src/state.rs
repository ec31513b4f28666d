use vstd::prelude::*;

use crate::archlinux::internal::{Url, UrlView};

verus! {

/// Length of the pause requested by the sleep action, in milliseconds.
pub const DEFAULT_SLEEP_MILLIS: u64 = 1000;

/// The regions of the screen that can hold the focus.
#[derive(Debug, Clone, Copy, PartialEq, Eq, Hash, Structural)]
pub enum Widgets {
    CountryFilter,
    Protocols,
    Mirrors,
    SelectedCountries,
}

impl Widgets {
    /// Short name shown in the title bar.
    pub fn label(&self) -> (r: &'static str)
        ensures
            r@ == widget_label(*self),
    {
        match self {
            Widgets::CountryFilter => "Filter",
            Widgets::Protocols => "Protocols",
            Widgets::Mirrors => "Mirrors",
            Widgets::SelectedCountries => "Countries",
        }
    }
}

pub open spec fn widget_label(w: Widgets) -> Seq<char> {
    match w {
        Widgets::CountryFilter => "Filter"@,
        Widgets::Protocols => "Protocols"@,
        Widgets::Mirrors => "Mirrors"@,
        Widgets::SelectedCountries => "Countries"@,
    }
}

/// Lifecycle and focus of the application.
///
/// `Init` holds until the first catalog has been loaded; afterwards the
/// state stays `Initialized`.
#[derive(Debug, Clone, Copy, PartialEq, Eq, Structural)]
pub enum AppState {
    Init,
    Initialized {
        /// Pause of the sleep action, in milliseconds.
        duration: u64,
        counter_sleep: u32,
        counter_tick: u64,
        focused_widget: Widgets,
    },
}

/// The state right after initialisation, focused on `widget`.
pub open spec fn initialized_with(widget: Widgets) -> AppState {
    AppState::Initialized {
        duration: DEFAULT_SLEEP_MILLIS,
        counter_sleep: 0,
        counter_tick: 0,
        focused_widget: widget,
    }
}

impl AppState {
    pub open spec fn spec_focused(self) -> Option<Widgets> {
        match self {
            AppState::Init => None,
            AppState::Initialized { focused_widget, .. } => Some(focused_widget),
        }
    }

    /// The state after one more sleep, the counter saturating.
    pub open spec fn sleep_counted(self) -> AppState {
        match self {
            AppState::Init => AppState::Init,
            AppState::Initialized { duration, counter_sleep, counter_tick, focused_widget } =>
                AppState::Initialized {
                    duration,
                    counter_sleep: if counter_sleep < u32::MAX {
                        (counter_sleep + 1) as u32
                    } else {
                        counter_sleep
                    },
                    counter_tick,
                    focused_widget,
                },
        }
    }

    /// The state after one more tick, the counter saturating.
    pub open spec fn tick_counted(self) -> AppState {
        match self {
            AppState::Init => AppState::Init,
            AppState::Initialized { duration, counter_sleep, counter_tick, focused_widget } =>
                AppState::Initialized {
                    duration,
                    counter_sleep,
                    counter_tick: if counter_tick < u64::MAX {
                        (counter_tick + 1) as u64
                    } else {
                        counter_tick
                    },
                    focused_widget,
                },
        }
    }

    pub open spec fn spec_duration(self) -> Option<u64> {
        match self {
            AppState::Init => None,
            AppState::Initialized { duration, .. } => Some(duration),
        }
    }

    /// The state entered once the first catalog is available: default
    /// pause, zero counters, focus on the country filter.
    pub fn initialized() -> (r: Self)
        ensures
            r == initialized_with(Widgets::CountryFilter),
    {
        AppState::Initialized {
            duration: DEFAULT_SLEEP_MILLIS,
            counter_sleep: 0,
            counter_tick: 0,
            focused_widget: Widgets::CountryFilter,
        }
    }

    pub fn is_initialized(&self) -> (r: bool)
        ensures
            r == (*self is Initialized),
    {
        match self {
            AppState::Init => false,
            AppState::Initialized { .. } => true,
        }
    }

    /// Counts one more completed sleep; the counter saturates.
    pub fn incr_sleep(&mut self)
        ensures
            *final(self) == old(self).sleep_counted(),
    {
        if let AppState::Initialized { counter_sleep, .. } = self {
            *counter_sleep = counter_sleep.saturating_add(1);
        }
    }

    /// Counts one more tick; the counter saturates.
    pub fn incr_tick(&mut self)
        ensures
            *final(self) == old(self).tick_counted(),
    {
        if let AppState::Initialized { counter_tick, .. } = self {
            *counter_tick = counter_tick.saturating_add(1);
        }
    }

    pub fn count_sleep(&self) -> (r: Option<u32>)
        ensures
            r == match *self {
                AppState::Init => None,
                AppState::Initialized { counter_sleep, .. } => Some(counter_sleep),
            },
    {
        match self {
            AppState::Init => None,
            AppState::Initialized { counter_sleep, .. } => Some(*counter_sleep),
        }
    }

    pub fn count_tick(&self) -> (r: Option<u64>)
        ensures
            r == match *self {
                AppState::Init => None,
                AppState::Initialized { counter_tick, .. } => Some(counter_tick),
            },
    {
        match self {
            AppState::Init => None,
            AppState::Initialized { counter_tick, .. } => Some(*counter_tick),
        }
    }

    /// Pause of the sleep action in milliseconds; absent before initialisation.
    pub fn duration(&self) -> (r: Option<u64>)
        ensures
            r == self.spec_duration(),
    {
        match self {
            AppState::Init => None,
            AppState::Initialized { duration, .. } => Some(*duration),
        }
    }

    /// The focused widget; absent before initialisation.
    pub fn focused_widget(&self) -> (r: Option<Widgets>)
        ensures
            r == self.spec_focused(),
    {
        match self {
            AppState::Init => None,
            AppState::Initialized { focused_widget, .. } => Some(*focused_widget),
        }
    }

    /// Moves the focus to `widget`.
    ///
    /// This deliberately restarts the state as well: the pause goes back to
    /// its default and both counters to zero, whatever they were before.
    pub fn update_focused_widget(&mut self, widget: Widgets)
        ensures
            *final(self) == initialized_with(widget),
    {
        *self = AppState::Initialized {
            duration: DEFAULT_SLEEP_MILLIS,
            counter_sleep: 0,
            counter_tick: 0,
            focused_widget: widget,
        };
    }
}

/// A country marked for export: a copy of the country as it was, the
/// filter text active when it was chosen and its row in the filtered list.
#[derive(Debug, PartialEq)]
pub struct SelectedCountry {
    pub country: Url,
    pub search_item: String,
    pub index: usize,
}

pub struct SelectedView {
    pub country: UrlView,
    pub search_item: Seq<char>,
    pub index: usize,
}

impl View for SelectedCountry {
    type V = SelectedView;

    open spec fn view(&self) -> SelectedView {
        SelectedView { country: self.country@, search_item: self.search_item@, index: self.index }
    }
}

impl Clone for SelectedCountry {
    fn clone(&self) -> (r: Self)
        ensures
            r@ == self@,
    {
        SelectedCountry {
            country: self.country.clone(),
            search_item: self.search_item.clone(),
            index: self.index,
        }
    }
}

impl Default for AppState {
    fn default() -> (r: Self)
        ensures
            r == AppState::Init,
    {
        AppState::Init
    }
}

} // verus!
