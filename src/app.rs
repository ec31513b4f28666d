use vstd::prelude::*;

use crate::actions::{Action, Actions, all_actions, first_match, keys_of, lemma_distinct_is_conflict_free};
use crate::archlinux::internal::{ArchMirrors, ArchMirrorsView, Url, UrlView};
use crate::clock::Timestamp;
use crate::io::IoEvent;
use crate::key::Key;
use crate::state::{AppState, SelectedCountry, SelectedView, Widgets, initialized_with};
use crate::text::{is_infix, lower_of, lowercase, matches_folded, pop_char, push_char};

verus! {

/// Whether the main loop goes on after an event.
#[derive(Debug, Clone, Copy, PartialEq, Eq, Structural)]
pub enum AppReturn {
    Exit,
    Continue,
}

/// The two tables whose cursor can be moved.
#[derive(Debug, Clone, Copy, PartialEq, Eq, Structural)]
enum ScrollableTables {
    AllMirrors,
    SavedMirrors,
}

/// Outside work that an event asks for; the caller performs it.
#[derive(Debug)]
pub enum Effect {
    Nothing,
    /// Send this event to the input/output task.
    Io(IoEvent),
    /// Write out the mirrors of these countries; `rate` asks for them to be
    /// rated first.
    Export { countries: Vec<SelectedCountry>, rate: bool },
}

/// The answer to one event: whether to go on, and what to perform.
#[derive(Debug)]
pub struct Reaction {
    pub flow: AppReturn,
    pub effect: Effect,
}

pub enum EffectView {
    Nothing,
    Io(IoEvent),
    Export(Seq<SelectedView>, bool),
}

pub struct ReactionView {
    pub flow: AppReturn,
    pub effect: EffectView,
}

impl View for Reaction {
    type V = ReactionView;

    open spec fn view(&self) -> ReactionView {
        ReactionView {
            flow: self.flow,
            effect: match &self.effect {
                Effect::Nothing => EffectView::Nothing,
                Effect::Io(e) => EffectView::Io(*e),
                Effect::Export { countries, rate } => EffectView::Export(
                    countries@.map_values(|s: SelectedCountry| s@),
                    *rate,
                ),
            },
        }
    }
}

/// The whole application state, as its contracts see it.
pub struct AppView {
    pub is_loading: bool,
    pub actions: Seq<Action>,
    pub state: AppState,
    pub mirrors: ArchMirrorsView,
    pub country_filter: Seq<char>,
    pub clock: Timestamp,
    /// Cursor of the table of all countries.
    pub table: Option<usize>,
    pub selected_countries: Seq<SelectedView>,
    /// Cursor of the table of selected countries.
    pub selected_table: Option<usize>,
    pub focused_country: UrlView,
}

/// The application: the one mutable aggregate that input, ticks and the
/// catalog loader update and the renderer reads.
pub struct App {
    is_loading: bool,
    actions: Actions,
    state: AppState,
    mirrors: ArchMirrors,
    country_filter: String,
    clock: Timestamp,
    table: Option<usize>,
    selected_countries: Vec<SelectedCountry>,
    selected_table: Option<usize>,
    focused_country: Url,
}

impl View for App {
    type V = AppView;

    closed spec fn view(&self) -> AppView {
        AppView {
            is_loading: self.is_loading,
            actions: self.actions@,
            state: self.state,
            mirrors: self.mirrors@,
            country_filter: self.country_filter@,
            clock: self.clock,
            table: self.table,
            selected_countries: self.selected_countries@.map_values(|s: SelectedCountry| s@),
            selected_table: self.selected_table,
            focused_country: self.focused_country@,
        }
    }
}

/// The catalog before anything is loaded.
pub open spec fn empty_catalog() -> ArchMirrorsView {
    ArchMirrorsView {
        cutoff: 0,
        last_check: Seq::empty(),
        num_checks: 0,
        check_frequency: 0,
        countries: Seq::empty(),
        version: 0,
    }
}

/// The actions offered once the catalog is loaded.
pub open spec fn full_table() -> Seq<Action> {
    seq![
        Action::Quit,
        Action::Sleep,
        Action::Focus(Widgets::CountryFilter),
        Action::Focus(Widgets::Protocols),
        Action::Focus(Widgets::Mirrors),
        Action::Focus(Widgets::SelectedCountries),
        Action::Action,
        Action::SimpleExport,
        Action::RateExport,
    ]
}

/// Cursor after moving down a table of `len` rows, wrapping to the top.
pub open spec fn cursor_down(cursor: Option<usize>, len: nat) -> Option<usize> {
    if len == 0 {
        None
    } else {
        match cursor {
            None => Some(0),
            Some(i) => if i >= len - 1 {
                Some(0)
            } else {
                Some((i + 1) as usize)
            },
        }
    }
}

/// Cursor after moving up a table of `len` rows, wrapping to the bottom.
pub open spec fn cursor_up(cursor: Option<usize>, len: nat) -> Option<usize> {
    if len == 0 {
        None
    } else {
        match cursor {
            None => Some(0),
            Some(i) => if i == 0 {
                Some((len - 1) as usize)
            } else {
                Some((i - 1) as usize)
            },
        }
    }
}

/// The test that keeps a country in the filtered list.
pub open spec fn shown_by(filter: Seq<char>) -> spec_fn(UrlView) -> bool {
    |c: UrlView| is_infix(lower_of(filter), lower_of(c.country))
}

/// The countries whose name holds the filter, ignoring case.
pub open spec fn visible(countries: Seq<UrlView>, filter: Seq<char>) -> Seq<UrlView> {
    countries.filter(shown_by(filter))
}

pub open spec fn has_country(selected: Seq<SelectedView>, name: Seq<char>) -> bool {
    exists|k: int| 0 <= k < selected.len() && (#[trigger] selected[k]).country.country == name
}

pub open spec fn without_last(s: Seq<char>) -> Seq<char> {
    if s.len() == 0 {
        s
    } else {
        s.drop_last()
    }
}

/// Enter on the country table: the country under the cursor in the
/// filtered list joins the selection unless a country of that name is
/// already there.
pub open spec fn select_country(o: AppView) -> AppView {
    match o.table {
        Some(i) => {
            let shown = visible(o.mirrors.countries, o.country_filter);
            if i < shown.len() && !has_country(o.selected_countries, shown[i as int].country) {
                AppView {
                    selected_countries: o.selected_countries.push(
                        SelectedView { country: shown[i as int], search_item: o.country_filter, index: i },
                    ),
                    ..o
                }
            } else {
                o
            }
        },
        None => o,
    }
}

/// Enter on the selection table: the entry under the cursor leaves; the
/// cursor stays on the same row, or on the last one, or is cleared when
/// nothing is left.
pub open spec fn remove_selected(o: AppView) -> AppView {
    match o.selected_table {
        Some(i) => if i < o.selected_countries.len() {
            let rest = o.selected_countries.remove(i as int);
            AppView {
                selected_countries: rest,
                selected_table: if rest.len() == 0 {
                    None
                } else if i < rest.len() {
                    Some(i)
                } else {
                    Some((rest.len() - 1) as usize)
                },
                ..o
            }
        } else {
            o
        },
        None => o,
    }
}

/// The selection cursor moves to `cursor`; the country under it becomes
/// the one whose mirrors are shown.
pub open spec fn move_selection(o: AppView, cursor: Option<usize>) -> AppView {
    AppView {
        selected_table: cursor,
        focused_country: match cursor {
            Some(j) => if j < o.selected_countries.len() {
                o.selected_countries[j as int].country
            } else {
                o.focused_country
            },
            None => o.focused_country,
        },
        ..o
    }
}

pub open spec fn is_select_key(key: Key) -> bool {
    key == Key::Enter || key == Key::Char(' ')
}

pub open spec fn is_up_key(key: Key) -> bool {
    key == Key::Up || key == Key::Char('k')
}

pub open spec fn is_down_key(key: Key) -> bool {
    key == Key::Down || key == Key::Char('j')
}

/// What the generic action does in the focused widget.
pub open spec fn act_in_widget(o: AppView, focused: Widgets, key: Key) -> AppView {
    match focused {
        Widgets::CountryFilter => match key {
            Key::Backspace => AppView { country_filter: without_last(o.country_filter), table: None, ..o },
            Key::Char(c) => AppView { country_filter: o.country_filter.push(c), table: None, ..o },
            Key::Ctrl(c) => if c == 'a' {
                AppView { state: initialized_with(Widgets::Mirrors), ..o }
            } else {
                o
            },
            _ => o,
        },
        Widgets::Protocols => o,
        Widgets::Mirrors => if is_select_key(key) {
            select_country(o)
        } else if is_up_key(key) {
            AppView { table: cursor_up(o.table, o.mirrors.countries.len()), ..o }
        } else if is_down_key(key) {
            AppView { table: cursor_down(o.table, o.mirrors.countries.len()), ..o }
        } else {
            o
        },
        Widgets::SelectedCountries => if is_select_key(key) {
            remove_selected(o)
        } else if is_up_key(key) {
            move_selection(o, cursor_up(o.selected_table, o.selected_countries.len()))
        } else if is_down_key(key) {
            move_selection(o, cursor_down(o.selected_table, o.selected_countries.len()))
        } else {
            o
        },
    }
}

pub open spec fn go_on() -> ReactionView {
    ReactionView { flow: AppReturn::Continue, effect: EffectView::Nothing }
}

/// The new state and the reaction when `action`, triggered by `key`, is
/// handled in state `o`. Before initialisation nothing happens.
pub open spec fn handle(o: AppView, action: Action, key: Key) -> (AppView, ReactionView) {
    match o.state.spec_focused() {
        None => (o, go_on()),
        Some(focused) => match action {
            Action::Quit => (o, ReactionView { flow: AppReturn::Exit, effect: EffectView::Nothing }),
            Action::Sleep => match o.state.spec_duration() {
                Some(d) => (
                    AppView { is_loading: true, ..o },
                    ReactionView { flow: AppReturn::Continue, effect: EffectView::Io(IoEvent::Sleep(d)) },
                ),
                None => (o, go_on()),
            },
            Action::Focus(w) => (AppView { state: initialized_with(w), ..o }, go_on()),
            Action::Action => (act_in_widget(o, focused, key), go_on()),
            Action::SimpleExport => (
                o,
                ReactionView {
                    flow: AppReturn::Continue,
                    effect: EffectView::Export(o.selected_countries, false),
                },
            ),
            Action::RateExport => (
                o,
                ReactionView {
                    flow: AppReturn::Continue,
                    effect: EffectView::Export(o.selected_countries, true),
                },
            ),
        },
    }
}

/// What a key press does: the action of the live table that the key
/// triggers is handled; a key that triggers none changes nothing.
pub open spec fn on_key(o: AppView, key: Key) -> (AppView, ReactionView) {
    match first_match(all_actions(), o.actions, key) {
        Some(a) => handle(o, a, key),
        None => (o, go_on()),
    }
}

proof fn lemma_visible_prefix(cs: Seq<UrlView>, f: Seq<char>, p: int)
    requires
        0 <= p < cs.len(),
    ensures
        visible(cs.take(p + 1), f) == if shown_by(f)(cs[p]) {
            visible(cs.take(p), f).push(cs[p])
        } else {
            visible(cs.take(p), f)
        },
        visible(cs, f) == visible(cs.take(p + 1), f) + visible(cs.skip(p + 1), f),
{
    reveal(Seq::filter);
    assert(cs.take(p + 1).drop_last() =~= cs.take(p));
    assert(cs.take(p + 1).last() == cs[p]);
    assert(cs =~= cs.take(p + 1) + cs.skip(p + 1));
    Seq::filter_distributes_over_add(cs.take(p + 1), cs.skip(p + 1), shown_by(f));
}

fn next_down(cursor: Option<usize>, len: usize) -> (r: Option<usize>)
    ensures
        r == cursor_down(cursor, len as nat),
{
    if len == 0 {
        return None;
    }
    match cursor {
        Some(i) => if i >= len - 1 {
            Some(0)
        } else {
            Some(i + 1)
        },
        None => Some(0),
    }
}

fn next_up(cursor: Option<usize>, len: usize) -> (r: Option<usize>)
    ensures
        r == cursor_up(cursor, len as nat),
{
    if len == 0 {
        return None;
    }
    match cursor {
        Some(i) => if i == 0 {
            Some(len - 1)
        } else {
            Some(i - 1)
        },
        None => Some(0),
    }
}

/// Position in `countries` of the row `index` of the filtered list.
fn visible_country(countries: &Vec<Url>, filter: &String, index: usize) -> (r: Option<usize>)
    ensures
        ({
            let shown = visible(countries@.map_values(|c: Url| c@), filter@);
            match r {
                Some(p) => p < countries@.len() && index < shown.len() && countries@[p as int]@
                    == shown[index as int],
                None => index >= shown.len(),
            }
        }),
{
    let ghost cs = countries@.map_values(|c: Url| c@);
    let folded_filter = lowercase(filter.as_str());
    let mut count: usize = 0;
    let mut p: usize = 0;
    assert(visible(cs.take(0), filter@) =~= Seq::<UrlView>::empty()) by {
        reveal(Seq::filter);
    }
    while p < countries.len()
        invariant
            cs == countries@.map_values(|c: Url| c@),
            folded_filter@ == lower_of(filter@),
            p <= countries@.len(),
            count <= index,
            count == visible(cs.take(p as int), filter@).len(),
        decreases countries.len() - p,
    {
        proof {
            lemma_visible_prefix(cs, filter@, p as int);
        }
        let folded_name = lowercase(countries[p].country.as_str());
        if matches_folded(folded_name.as_str(), folded_filter.as_str()) {
            assert(shown_by(filter@)(cs[p as int]));
            if count == index {
                return Some(p);
            }
            count = count + 1;
        }
        p = p + 1;
    }
    assert(cs.take(p as int) =~= cs);
    None
}

impl App {
    /// A fresh application: not initialised, empty catalog and filter,
    /// nothing selected, only Quit offered, the clock set to `clock`.
    pub fn new(clock: Timestamp) -> (r: App)
        ensures
            !r@.is_loading,
            r@.clock == clock,
            r@.actions == seq![Action::Quit],
            r@.state == AppState::Init,
            r@.mirrors == empty_catalog(),
            r@.country_filter.len() == 0,
            r@.table is None,
            r@.selected_countries.len() == 0,
            r@.selected_table is None,
            r@.focused_country == (UrlView {
                country: Seq::empty(),
                country_code: Seq::empty(),
                mirrors: Seq::empty(),
            }),
    {
        let quit_only = vec![Action::Quit];
        proof {
            lemma_distinct_is_conflict_free(quit_only@);
        }
        let actions = Actions::from_conflict_free(quit_only);
        let r = App {
            is_loading: false,
            actions,
            state: AppState::Init,
            mirrors: ArchMirrors::default(),
            country_filter: String::new(),
            clock,
            table: None,
            selected_countries: Vec::new(),
            selected_table: None,
            focused_country: Url::default(),
        };
        assert(r@.selected_countries =~= Seq::<SelectedView>::empty());
        assert(r@.mirrors.countries =~= Seq::<UrlView>::empty());
        assert(r@.mirrors.last_check =~= Seq::<char>::empty());
        assert(r@.focused_country.country =~= Seq::<char>::empty());
        assert(r@.focused_country.country_code =~= Seq::<char>::empty());
        assert(r@.focused_country.mirrors =~= Seq::<crate::archlinux::internal::Mirror>::empty());
        r
    }

    /// Handles a key press: looks the key up in the live action table and
    /// handles the action found; a key without an action does nothing.
    pub fn do_action(&mut self, key: Key) -> (r: Reaction)
        ensures
            (final(self)@, r@) == on_key(old(self)@, key),
    {
        match self.actions.find(key) {
            Some(action) => self.key_handler(action, key),
            None => Reaction { flow: AppReturn::Continue, effect: Effect::Nothing },
        }
    }

    /// Periodic bookkeeping; nothing to do yet.
    pub fn update_on_tick(&mut self) -> (r: AppReturn)
        ensures
            final(self)@ == old(self)@,
            r == AppReturn::Continue,
    {
        AppReturn::Continue
    }

    /// Marks the application busy and hands back the event to send to the
    /// input/output task. Should the send fail, the caller calls `loaded`.
    pub fn dispatch(&mut self, event: IoEvent) -> (r: IoEvent)
        ensures
            final(self)@ == (AppView { is_loading: true, ..old(self)@ }),
            r == event,
    {
        self.is_loading = true;
        event
    }

    /// The first catalog is in: every action is offered and the state
    /// machine leaves `Init`, focused on the country filter.
    pub fn initialized(&mut self)
        ensures
            final(self)@ == (AppView {
                actions: full_table(),
                state: initialized_with(Widgets::CountryFilter),
                ..old(self)@
            }),
    {
        let table = vec![
            Action::Quit,
            Action::Sleep,
            Action::Focus(Widgets::CountryFilter),
            Action::Focus(Widgets::Protocols),
            Action::Focus(Widgets::Mirrors),
            Action::Focus(Widgets::SelectedCountries),
            Action::Action,
            Action::SimpleExport,
            Action::RateExport,
        ];
        proof {
            assert(table@.no_duplicates());
            lemma_distinct_is_conflict_free(table@);
        }
        self.actions = Actions::from_conflict_free(table);
        self.state = AppState::initialized();
    }

    /// The input/output task is done with its event.
    pub fn loaded(&mut self)
        ensures
            final(self)@ == (AppView { is_loading: false, ..old(self)@ }),
    {
        self.is_loading = false;
    }

    /// One more sleep has completed.
    pub fn slept(&mut self)
        ensures
            final(self)@ == (AppView { state: old(self)@.state.sleep_counted(), ..old(self)@ }),
    {
        self.state.incr_sleep();
    }

    pub fn update_clock(&mut self, clock: Timestamp)
        ensures
            final(self)@ == (AppView { clock, ..old(self)@ }),
    {
        self.clock = clock;
    }

    /// Takes a copy of a newly loaded catalog.
    pub fn update_mirrors(&mut self, mirrors: &ArchMirrors)
        ensures
            final(self)@ == (AppView { mirrors: mirrors@, ..old(self)@ }),
    {
        self.mirrors = mirrors.clone();
    }

    /// The country whose mirrors are shown beside the selection.
    pub fn focused_country(&self) -> (r: &Url)
        ensures
            r@ == self@.focused_country,
    {
        &self.focused_country
    }

    pub fn is_loading(&self) -> (r: bool)
        ensures
            r == self@.is_loading,
    {
        self.is_loading
    }

    pub fn actions(&self) -> (r: &Actions)
        ensures
            r@ == self@.actions,
    {
        &self.actions
    }

    pub fn state(&self) -> (r: &AppState)
        ensures
            *r == self@.state,
    {
        &self.state
    }

    pub fn mirrors(&self) -> (r: &ArchMirrors)
        ensures
            r@ == self@.mirrors,
    {
        &self.mirrors
    }

    pub fn country_filter(&self) -> (r: &str)
        ensures
            r@ == self@.country_filter,
    {
        self.country_filter.as_str()
    }

    pub fn clock(&self) -> (r: Timestamp)
        ensures
            r == self@.clock,
    {
        self.clock
    }

    /// Cursor of the table of all countries.
    pub fn table_selected(&self) -> (r: Option<usize>)
        ensures
            r == self@.table,
    {
        self.table
    }

    pub fn selected_countries(&self) -> (r: &Vec<SelectedCountry>)
        ensures
            r@.map_values(|s: SelectedCountry| s@) == self@.selected_countries,
    {
        &self.selected_countries
    }

    /// Cursor of the table of selected countries.
    pub fn selected_table_selected(&self) -> (r: Option<usize>)
        ensures
            r == self@.selected_table,
    {
        self.selected_table
    }

    /// Rows of the filtered country list: the positions in the catalog of
    /// the countries whose name holds the filter, ignoring case.
    pub fn visible_rows(&self) -> (r: Vec<usize>)
        ensures
            r@.len() == visible(self@.mirrors.countries, self@.country_filter).len(),
            forall|k: int| #![trigger r@[k]] 0 <= k < r@.len() ==> r@[k] < self@.mirrors.countries.len()
                && self@.mirrors.countries[r@[k] as int] == visible(self@.mirrors.countries, self@.country_filter)[k],
            forall|k: int, l: int| 0 <= k < l < r@.len() ==> r@[k] < r@[l],
    {
        let ghost cs = self@.mirrors.countries;
        let ghost f = self@.country_filter;
        let countries = &self.mirrors.countries;
        let folded_filter = lowercase(self.country_filter.as_str());
        let mut rows: Vec<usize> = Vec::new();
        let mut p: usize = 0;
        assert(visible(cs.take(0), f) =~= Seq::<UrlView>::empty()) by {
            reveal(Seq::filter);
        }
        while p < countries.len()
            invariant
                cs == countries@.map_values(|c: Url| c@),
                folded_filter@ == lower_of(f),
                p <= countries@.len(),
                rows@.len() == visible(cs.take(p as int), f).len(),
                forall|k: int| #![trigger rows@[k]] 0 <= k < rows@.len() ==> rows@[k] < cs.len()
                    && cs[rows@[k] as int] == visible(cs.take(p as int), f)[k],
                forall|k: int| 0 <= k < rows@.len() ==> #[trigger] rows@[k] < p,
                forall|k: int, l: int| 0 <= k < l < rows@.len() ==> rows@[k] < rows@[l],
            decreases countries.len() - p,
        {
            proof {
                lemma_visible_prefix(cs, f, p as int);
            }
            let ghost before = rows@;
            let ghost prev = visible(cs.take(p as int), f);
            assert(cs[p as int] == countries@[p as int]@);
            let folded_name = lowercase(countries[p].country.as_str());
            if matches_folded(folded_name.as_str(), folded_filter.as_str()) {
                assert(shown_by(f)(cs[p as int]));
                rows.push(p);
                assert(visible(cs.take(p + 1), f) == prev.push(cs[p as int]));
            } else {
                assert(!shown_by(f)(cs[p as int]));
                assert(visible(cs.take(p + 1), f) == prev);
            }
            assert forall|k: int| #![trigger rows@[k]] 0 <= k < rows@.len() implies rows@[k] < cs.len()
                && cs[rows@[k] as int] == visible(cs.take(p + 1), f)[k] by {
                if k < before.len() {
                    assert(rows@[k] == before[k]);
                    assert(cs[before[k] as int] == prev[k]);
                }
            }
            p = p + 1;
        }
        assert(cs.take(p as int) =~= cs);
        assert(visible(cs.take(p as int), f) == visible(cs, f));
        assert forall|k: int| #![trigger rows@[k]] 0 <= k < rows@.len() implies rows@[k] < self@.mirrors.countries.len()
            && cs[rows@[k] as int] == visible(cs, f)[k] by {
            assert(rows@[k] < cs.len());
            assert(cs[rows@[k] as int] == visible(cs.take(p as int), f)[k]);
        }
        rows
    }

    fn table_info(&self, table: ScrollableTables) -> (r: (Option<usize>, usize))
        ensures
            table == ScrollableTables::AllMirrors ==> r.0 == self@.table && r.1 == self@.mirrors.countries.len(),
            table == ScrollableTables::SavedMirrors ==> r.0 == self@.selected_table && r.1 == self@.selected_countries.len(),
    {
        match table {
            ScrollableTables::AllMirrors => (self.table, self.mirrors.countries.len()),
            ScrollableTables::SavedMirrors => (self.selected_table, self.selected_countries.len()),
        }
    }

    fn update_mirrors_widget(&mut self, table: ScrollableTables, index: usize)
        ensures
            table == ScrollableTables::AllMirrors ==> final(self)@ == old(self)@,
            table == ScrollableTables::SavedMirrors ==> final(self)@ == (AppView {
                focused_country: if index < old(self)@.selected_countries.len() {
                    old(self)@.selected_countries[index as int].country
                } else {
                    old(self)@.focused_country
                },
                ..old(self)@
            }),
    {
        match table {
            ScrollableTables::AllMirrors => {},
            ScrollableTables::SavedMirrors => {
                if index < self.selected_countries.len() {
                    self.focused_country = self.selected_countries[index].country.clone();
                }
            },
        }
    }

    /// Moves the cursor of `table` one row down, wrapping to the top.
    fn scroll_prev(&mut self, table: ScrollableTables)
        ensures
            table == ScrollableTables::AllMirrors ==> final(self)@ == (AppView {
                table: cursor_down(old(self)@.table, old(self)@.mirrors.countries.len()),
                ..old(self)@
            }),
            table == ScrollableTables::SavedMirrors ==> final(self)@ == move_selection(
                old(self)@,
                cursor_down(old(self)@.selected_table, old(self)@.selected_countries.len()),
            ),
    {
        let (cursor, items) = self.table_info(table);
        let next = next_down(cursor, items);
        match table {
            ScrollableTables::AllMirrors => self.table = next,
            ScrollableTables::SavedMirrors => self.selected_table = next,
        }
        if let Some(i) = next {
            self.update_mirrors_widget(table, i);
        }
    }

    /// Moves the cursor of `table` one row up, wrapping to the bottom.
    fn scroll_next(&mut self, table: ScrollableTables)
        ensures
            table == ScrollableTables::AllMirrors ==> final(self)@ == (AppView {
                table: cursor_up(old(self)@.table, old(self)@.mirrors.countries.len()),
                ..old(self)@
            }),
            table == ScrollableTables::SavedMirrors ==> final(self)@ == move_selection(
                old(self)@,
                cursor_up(old(self)@.selected_table, old(self)@.selected_countries.len()),
            ),
    {
        let (cursor, items) = self.table_info(table);
        let next = next_up(cursor, items);
        match table {
            ScrollableTables::AllMirrors => self.table = next,
            ScrollableTables::SavedMirrors => self.selected_table = next,
        }
        if let Some(i) = next {
            self.update_mirrors_widget(table, i);
        }
    }

    fn has_selected(&self, name: &String) -> (r: bool)
        ensures
            r == has_country(self@.selected_countries, name@),
    {
        let ghost sel = self@.selected_countries;
        let mut k: usize = 0;
        while k < self.selected_countries.len()
            invariant
                sel == self@.selected_countries,
                k <= sel.len(),
                forall|m: int| 0 <= m < k ==> (#[trigger] sel[m]).country.country != name@,
            decreases self.selected_countries.len() - k,
        {
            if self.selected_countries[k].country.country == *name {
                assert(sel[k as int].country.country == name@);
                return true;
            }
            k = k + 1;
        }
        false
    }

    fn select_country(&mut self)
        ensures
            final(self)@ == select_country(old(self)@),
    {
        if let Some(index) = self.table {
            let ghost shown = visible(self@.mirrors.countries, self@.country_filter);
            assert(self.mirrors.countries@.map_values(|c: Url| c@) == self@.mirrors.countries);
            if let Some(p) = visible_country(&self.mirrors.countries, &self.country_filter, index) {
                if !self.has_selected(&self.mirrors.countries[p].country) {
                    let country = self.mirrors.countries[p].clone();
                    let search_item = self.country_filter.clone();
                    let ghost before = self.selected_countries@;
                    self.selected_countries.push(SelectedCountry { country, search_item, index });
                    assert(self.selected_countries@.map_values(|s: SelectedCountry| s@) =~= before.map_values(
                        |s: SelectedCountry| s@,
                    ).push(SelectedView { country: shown[index as int], search_item: self@.country_filter, index }));
                }
            }
        }
    }

    fn remove_selected(&mut self)
        ensures
            final(self)@ == remove_selected(old(self)@),
    {
        if let Some(index) = self.selected_table {
            if index < self.selected_countries.len() {
                let ghost before = self.selected_countries@;
                self.selected_countries.remove(index);
                assert(self.selected_countries@.map_values(|s: SelectedCountry| s@) =~= before.map_values(
                    |s: SelectedCountry| s@,
                ).remove(index as int));
                if self.selected_countries.len() == 0 {
                    self.selected_table = None;
                } else if index < self.selected_countries.len() {
                    self.selected_table = Some(index);
                } else {
                    self.selected_table = Some(self.selected_countries.len() - 1);
                }
            }
        }
    }

    fn act_in_widget(&mut self, focused: Widgets, key: Key)
        ensures
            final(self)@ == act_in_widget(old(self)@, focused, key),
    {
        match focused {
            Widgets::CountryFilter => match key {
                Key::Backspace => {
                    pop_char(&mut self.country_filter);
                    self.table = None;
                },
                Key::Char(c) => {
                    push_char(&mut self.country_filter, c);
                    self.table = None;
                },
                Key::Ctrl(c) => {
                    if c == 'a' {
                        self.state.update_focused_widget(Widgets::Mirrors);
                    }
                },
                _ => {},
            },
            Widgets::Protocols => {},
            Widgets::Mirrors => {
                if key == Key::Enter || key == Key::Char(' ') {
                    self.select_country();
                } else if key == Key::Up || key == Key::Char('k') {
                    self.scroll_next(ScrollableTables::AllMirrors);
                } else if key == Key::Down || key == Key::Char('j') {
                    self.scroll_prev(ScrollableTables::AllMirrors);
                }
            },
            Widgets::SelectedCountries => {
                if key == Key::Enter || key == Key::Char(' ') {
                    self.remove_selected();
                } else if key == Key::Up || key == Key::Char('k') {
                    self.scroll_next(ScrollableTables::SavedMirrors);
                } else if key == Key::Down || key == Key::Char('j') {
                    self.scroll_prev(ScrollableTables::SavedMirrors);
                }
            },
        }
    }

    fn export(&self, rate: bool) -> (r: Reaction)
        ensures
            r@ == (ReactionView {
                flow: AppReturn::Continue,
                effect: EffectView::Export(self@.selected_countries, rate),
            }),
    {
        let mut countries: Vec<SelectedCountry> = Vec::new();
        let mut k: usize = 0;
        while k < self.selected_countries.len()
            invariant
                k <= self.selected_countries@.len(),
                countries@.map_values(|s: SelectedCountry| s@) == self@.selected_countries.take(k as int),
            decreases self.selected_countries.len() - k,
        {
            let ghost before = countries@;
            countries.push(self.selected_countries[k].clone());
            assert(countries@.map_values(|s: SelectedCountry| s@) =~= before.map_values(|s: SelectedCountry| s@).push(self@.selected_countries[k as int]));
            assert(self@.selected_countries.take(k + 1) =~= self@.selected_countries.take(k as int).push(self@.selected_countries[k as int]));
            k = k + 1;
        }
        assert(self@.selected_countries.take(k as int) =~= self@.selected_countries);
        Reaction { flow: AppReturn::Continue, effect: Effect::Export { countries, rate } }
    }

    fn key_handler(&mut self, action: Action, key: Key) -> (r: Reaction)
        ensures
            (final(self)@, r@) == handle(old(self)@, action, key),
    {
        match self.state.focused_widget() {
            None => Reaction { flow: AppReturn::Continue, effect: Effect::Nothing },
            Some(focused) => match action {
                Action::Quit => Reaction { flow: AppReturn::Exit, effect: Effect::Nothing },
                Action::Sleep => match self.state.duration() {
                    Some(duration) => {
                        let event = self.dispatch(IoEvent::Sleep(duration));
                        Reaction { flow: AppReturn::Continue, effect: Effect::Io(event) }
                    },
                    None => Reaction { flow: AppReturn::Continue, effect: Effect::Nothing },
                },
                Action::Focus(widget) => {
                    self.state.update_focused_widget(widget);
                    Reaction { flow: AppReturn::Continue, effect: Effect::Nothing }
                },
                Action::Action => {
                    self.act_in_widget(focused, key);
                    Reaction { flow: AppReturn::Continue, effect: Effect::Nothing }
                },
                Action::SimpleExport => self.export(false),
                Action::RateExport => self.export(true),
            },
        }
    }
}

} // verus!

verus! {

/// The cursor after `n` moves down.
pub open spec fn cursor_down_n(cursor: Option<usize>, len: nat, n: nat) -> Option<usize>
    decreases n,
{
    if n == 0 {
        cursor
    } else {
        cursor_down_n(cursor_down(cursor, len), len, (n - 1) as nat)
    }
}

/// The cursor after `n` moves up.
pub open spec fn cursor_up_n(cursor: Option<usize>, len: nat, n: nat) -> Option<usize>
    decreases n,
{
    if n == 0 {
        cursor
    } else {
        cursor_up_n(cursor_up(cursor, len), len, (n - 1) as nat)
    }
}

proof fn lemma_down_n_last(cursor: Option<usize>, len: nat, n: nat)
    requires
        n > 0,
    ensures
        cursor_down_n(cursor, len, n) == cursor_down(cursor_down_n(cursor, len, (n - 1) as nat), len),
    decreases n,
{
    if n == 1 {
        assert(cursor_down_n(cursor_down(cursor, len), len, 0) == cursor_down(cursor, len));
    } else {
        lemma_down_n_last(cursor_down(cursor, len), len, (n - 1) as nat);
        assert(cursor_down_n(cursor, len, (n - 1) as nat) == cursor_down_n(cursor_down(cursor, len), len, (n - 2) as nat));
    }
}

proof fn lemma_down_n_in_range(c: usize, len: nat, n: nat)
    requires
        c < len,
        len <= usize::MAX,
    ensures
        cursor_down_n(Some(c), len, n) matches Some(x) && x < len,
    decreases n,
{
    if n > 0 {
        lemma_down_n_in_range(cursor_down(Some(c), len)->0, len, (n - 1) as nat);
    }
}

/// On a table that is not empty, moving the cursor down `n` rows and then
/// up `n` rows brings it back to where it was.
pub proof fn law_scroll_round_trip(c: usize, len: nat, n: nat)
    requires
        c < len,
        len <= usize::MAX,
    ensures
        cursor_up_n(cursor_down_n(Some(c), len, n), len, n) == Some(c),
    decreases n,
{
    if n > 0 {
        let m = cursor_down_n(Some(c), len, (n - 1) as nat);
        lemma_down_n_in_range(c, len, (n - 1) as nat);
        lemma_down_n_last(Some(c), len, n);
        assert(cursor_up(cursor_down(m, len), len) == m);
        law_scroll_round_trip(c, len, (n - 1) as nat);
    }
}

proof fn lemma_up_n_last(cursor: Option<usize>, len: nat, n: nat)
    requires
        n > 0,
    ensures
        cursor_up_n(cursor, len, n) == cursor_up(cursor_up_n(cursor, len, (n - 1) as nat), len),
    decreases n,
{
    if n == 1 {
        assert(cursor_up_n(cursor_up(cursor, len), len, 0) == cursor_up(cursor, len));
    } else {
        lemma_up_n_last(cursor_up(cursor, len), len, (n - 1) as nat);
        assert(cursor_up_n(cursor, len, (n - 1) as nat) == cursor_up_n(cursor_up(cursor, len), len, (n - 2) as nat));
    }
}

proof fn lemma_up_n_in_range(c: usize, len: nat, n: nat)
    requires
        c < len,
        len <= usize::MAX,
    ensures
        cursor_up_n(Some(c), len, n) matches Some(x) && x < len,
    decreases n,
{
    if n > 0 {
        lemma_up_n_in_range(cursor_up(Some(c), len)->0, len, (n - 1) as nat);
    }
}

/// On a table that is not empty, moving the cursor up `n` rows and then
/// down `n` rows brings it back to where it was.
pub proof fn law_scroll_round_trip_up_first(c: usize, len: nat, n: nat)
    requires
        c < len,
        len <= usize::MAX,
    ensures
        cursor_down_n(cursor_up_n(Some(c), len, n), len, n) == Some(c),
    decreases n,
{
    if n > 0 {
        let m = cursor_up_n(Some(c), len, (n - 1) as nat);
        lemma_up_n_in_range(c, len, (n - 1) as nat);
        lemma_up_n_last(Some(c), len, n);
        assert(cursor_down(cursor_up(m, len), len) == m);
        law_scroll_round_trip_up_first(c, len, (n - 1) as nat);
    }
}

/// On an empty table the cursor is left unset, whichever way it moves.
pub proof fn law_scroll_empty_table(cursor: Option<usize>)
    ensures
        cursor_down(cursor, 0) is None,
        cursor_up(cursor, 0) is None,
{
}

/// No two selected entries name the same country.
pub open spec fn names_unique(selected: Seq<SelectedView>) -> bool {
    forall|i: int, j: int|
        0 <= i < j < selected.len() ==> (#[trigger] selected[i]).country.country != (#[trigger] selected[j]).country.country
}

/// Choosing the country under the cursor a second time changes nothing:
/// the selection holds it once.
pub proof fn law_select_twice(o: AppView, key: Key)
    requires
        o.state.spec_focused() == Some(Widgets::Mirrors),
        is_select_key(key),
    ensures
        handle(handle(o, Action::Action, key).0, Action::Action, key).0 == handle(o, Action::Action, key).0,
{
    let o1 = select_country(o);
    if o1 != o {
        let i = o.table->0;
        let shown = visible(o.mirrors.countries, o.country_filter);
        let last = o1.selected_countries.len() - 1;
        assert(o1.selected_countries[last].country.country == shown[i as int].country);
        assert(has_country(o1.selected_countries, shown[i as int].country));
    }
}

/// Whatever the action and key, a selection without repeated countries
/// stays without them.
pub proof fn law_selection_stays_unique(o: AppView, action: Action, key: Key)
    requires
        names_unique(o.selected_countries),
    ensures
        names_unique(handle(o, action, key).0.selected_countries),
{
    let n = handle(o, action, key).0;
    if n.selected_countries != o.selected_countries {
        let s = o.selected_countries;
        if n.selected_countries.len() > s.len() {
            let i = o.table->0;
            let shown = visible(o.mirrors.countries, o.country_filter);
            assert(!has_country(s, shown[i as int].country));
            assert forall|a: int, b: int| 0 <= a < b < n.selected_countries.len() implies (#[trigger] n.selected_countries[a]).country.country
                != (#[trigger] n.selected_countries[b]).country.country by {
                if b == s.len() {
                    assert(n.selected_countries[a] == s[a]);
                }
            }
        } else {
            let i = o.selected_table->0 as int;
            assert(n.selected_countries == s.remove(i));
            assert forall|a: int, b: int| 0 <= a < b < n.selected_countries.len() implies (#[trigger] n.selected_countries[a]).country.country
                != (#[trigger] n.selected_countries[b]).country.country by {
                let a1 = if a < i { a } else { a + 1 };
                let b1 = if b < i { b } else { b + 1 };
                assert(n.selected_countries[a] == s[a1]);
                assert(n.selected_countries[b] == s[b1]);
            }
        }
    }
}

/// Removing the only selected country empties the selection and clears
/// its cursor.
pub proof fn law_remove_sole_entry(o: AppView, key: Key)
    requires
        o.state.spec_focused() == Some(Widgets::SelectedCountries),
        is_select_key(key),
        o.selected_countries.len() == 1,
        o.selected_table == Some(0usize),
    ensures
        handle(o, Action::Action, key).0.selected_countries.len() == 0,
        handle(o, Action::Action, key).0.selected_table is None,
{
}

/// Typing a character into the filter appends it and erasing removes it
/// again; either edit also clears the cursor of the country table and
/// touches nothing else.
pub proof fn law_filter_type_then_erase(o: AppView, c: char)
    requires
        o.state.spec_focused() == Some(Widgets::CountryFilter),
    ensures
        handle(o, Action::Action, Key::Char(c)).0 == (AppView {
            country_filter: o.country_filter.push(c),
            table: None,
            ..o
        }),
        handle(handle(o, Action::Action, Key::Char(c)).0, Action::Action, Key::Backspace).0 == (AppView {
            table: None,
            ..o
        }),
{
    assert(o.country_filter.push(c).drop_last() =~= o.country_filter);
}

/// Whenever the live table holds Quit, its key finds it.
pub proof fn law_quit_always_available(table: Seq<Action>)
    requires
        table.contains(Action::Quit),
    ensures
        first_match(all_actions(), table, Key::Ctrl('c')) == Some(Action::Quit),
{
    assert(all_actions()[0] == Action::Quit);
    assert(keys_of(Action::Quit)[0] == Key::Ctrl('c'));
}

/// Once initialised, whatever catalog was loaded, the state is
/// `Initialized`, focused on the country filter, and the key of Quit ends
/// the main loop.
pub proof fn law_initialized_accepts_quit(o: AppView)
    ensures
        ({
            let n = AppView { actions: full_table(), state: initialized_with(Widgets::CountryFilter), ..o };
            &&& n.state is Initialized
            &&& n.state.spec_focused() == Some(Widgets::CountryFilter)
            &&& on_key(n, Key::Ctrl('c')).1.flow == AppReturn::Exit
        }),
{
    assert(full_table()[0] == Action::Quit);
    law_quit_always_available(full_table());
}

} // verus!
