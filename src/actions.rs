use vstd::prelude::*;

use crate::key::Key;
use crate::state::Widgets;

verus! {

/// What a user may ask for.
#[derive(Debug, Clone, Copy, PartialEq, Eq, Hash, Structural)]
pub enum Action {
    Quit,
    Sleep,
    Focus(Widgets),
    /// Act inside the focused widget; what happens depends on the key.
    Action,
    SimpleExport,
    RateExport,
}

/// Every action, in the order in which a key is looked up.
pub open spec fn all_actions() -> Seq<Action> {
    seq![
        Action::Quit,
        Action::Sleep,
        Action::Focus(Widgets::CountryFilter),
        Action::Focus(Widgets::Protocols),
        Action::Focus(Widgets::Mirrors),
        Action::Focus(Widgets::SelectedCountries),
        Action::Action,
        Action::SimpleExport,
        Action::RateExport,
    ]
}

/// The keys that trigger `a`, in order.
pub open spec fn keys_of(a: Action) -> Seq<Key> {
    match a {
        Action::Quit => seq![Key::Ctrl('c')],
        Action::Sleep => seq![Key::Ctrl('s')],
        Action::Focus(Widgets::CountryFilter) => seq![Key::Ctrl('f')],
        Action::Focus(Widgets::Protocols) => seq![Key::Ctrl('p')],
        Action::Focus(Widgets::Mirrors) => seq![Key::Ctrl('a')],
        Action::Focus(Widgets::SelectedCountries) => seq![Key::Ctrl('o')],
        Action::Action => seq![
            Key::Char('a'),
            Key::Char('b'),
            Key::Char('c'),
            Key::Char('d'),
            Key::Char('e'),
            Key::Char('f'),
            Key::Char('g'),
            Key::Char('h'),
            Key::Char('i'),
            Key::Char('j'),
            Key::Char('k'),
            Key::Char('l'),
            Key::Char('m'),
            Key::Char('n'),
            Key::Char('o'),
            Key::Char('p'),
            Key::Char('q'),
            Key::Char('r'),
            Key::Char('s'),
            Key::Char('t'),
            Key::Char('u'),
            Key::Char('v'),
            Key::Char('w'),
            Key::Char('x'),
            Key::Char('y'),
            Key::Char('z'),
            Key::Char(' '),
            Key::Up,
            Key::Enter,
            Key::Down,
            Key::Backspace,
            Key::Esc,
        ],
        Action::SimpleExport => seq![Key::Ctrl('e')],
        Action::RateExport => seq![Key::Ctrl('r')],
    }
}

/// The one action, among all of them, whose keys hold `k`.
pub open spec fn key_owner(k: Key) -> Option<Action> {
    match k {
        Key::Ctrl(c) => if c == 'c' {
            Some(Action::Quit)
        } else if c == 's' {
            Some(Action::Sleep)
        } else if c == 'f' {
            Some(Action::Focus(Widgets::CountryFilter))
        } else if c == 'p' {
            Some(Action::Focus(Widgets::Protocols))
        } else if c == 'a' {
            Some(Action::Focus(Widgets::Mirrors))
        } else if c == 'o' {
            Some(Action::Focus(Widgets::SelectedCountries))
        } else if c == 'e' {
            Some(Action::SimpleExport)
        } else if c == 'r' {
            Some(Action::RateExport)
        } else {
            None
        },
        Key::Char(c) => if ('a' <= c && c <= 'z') || c == ' ' {
            Some(Action::Action)
        } else {
            None
        },
        Key::Up | Key::Enter | Key::Down | Key::Backspace | Key::Esc => Some(Action::Action),
        _ => None,
    }
}

/// Two actions that a common key would both trigger.
pub open spec fn shares_key(a: Action, b: Action) -> bool {
    exists|k: Key| #[trigger] keys_of(a).contains(k) && keys_of(b).contains(k)
}

/// No key triggers the entries at two different positions of `s`.
pub open spec fn conflict_free(s: Seq<Action>) -> bool {
    forall|i: int, j: int| 0 <= i < j < s.len() ==> !shares_key(#[trigger] s[i], #[trigger] s[j])
}

/// The first action of `cands` that is in `table` and is triggered by `key`.
pub open spec fn first_match(cands: Seq<Action>, table: Seq<Action>, key: Key) -> Option<Action>
    decreases cands.len(),
{
    if cands.len() == 0 {
        None
    } else if table.contains(cands[0]) && keys_of(cands[0]).contains(key) {
        Some(cands[0])
    } else {
        first_match(cands.drop_first(), table, key)
    }
}

pub open spec fn action_label(a: Action) -> Seq<char> {
    match a {
        Action::Quit => "Quit"@,
        Action::Sleep => "Sleep"@,
        Action::Focus(Widgets::CountryFilter) => "Focus Filter"@,
        Action::Focus(Widgets::Protocols) => "Focus Protocols"@,
        Action::Focus(Widgets::Mirrors) => "Focus Mirrors"@,
        Action::Focus(Widgets::SelectedCountries) => "Focus Countries"@,
        Action::Action => "Action"@,
        Action::SimpleExport => "Export"@,
        Action::RateExport => "Rate and Export"@,
    }
}

/// Each key of an action is owned by that action alone.
pub proof fn lemma_keys_owned(a: Action, k: Key)
    requires
        keys_of(a).contains(k),
    ensures
        key_owner(k) == Some(a),
{
    let ks = keys_of(a);
    let i = choose|i: int| 0 <= i < ks.len() && ks[i] == k;
    assert(forall|j: int| 0 <= j < ks.len() ==> key_owner(#[trigger] ks[j]) == Some(a));
}

/// A table without repeated entries has no conflicting keys.
pub proof fn lemma_distinct_is_conflict_free(s: Seq<Action>)
    requires
        s.no_duplicates(),
    ensures
        conflict_free(s),
{
    assert forall|i: int, j: int| 0 <= i < j < s.len() implies !shares_key(
        #[trigger] s[i],
        #[trigger] s[j],
    ) by {
        if shares_key(s[i], s[j]) {
            let k = choose|k: Key| #[trigger] keys_of(s[i]).contains(k) && keys_of(s[j]).contains(k);
            lemma_keys_owned(s[i], k);
            lemma_keys_owned(s[j], k);
        }
    }
}

/// The lookup order names every action.
pub proof fn lemma_all_actions_complete(a: Action)
    ensures
        all_actions().contains(a),
{
    let all = all_actions();
    match a {
        Action::Quit => assert(all[0] == a),
        Action::Sleep => assert(all[1] == a),
        Action::Focus(Widgets::CountryFilter) => assert(all[2] == a),
        Action::Focus(Widgets::Protocols) => assert(all[3] == a),
        Action::Focus(Widgets::Mirrors) => assert(all[4] == a),
        Action::Focus(Widgets::SelectedCountries) => assert(all[5] == a),
        Action::Action => assert(all[6] == a),
        Action::SimpleExport => assert(all[7] == a),
        Action::RateExport => assert(all[8] == a),
    }
}

proof fn lemma_first_match_owner(cands: Seq<Action>, table: Seq<Action>, key: Key, a: Action)
    requires
        conflict_free(table),
        table.contains(a),
        keys_of(a).contains(key),
        cands.contains(a),
    ensures
        first_match(cands, table, key) == Some(a),
    decreases cands.len(),
{
    let b = cands[0];
    if table.contains(b) && keys_of(b).contains(key) {
        if b != a {
            let i = choose|i: int| 0 <= i < table.len() && table[i] == a;
            let j = choose|j: int| 0 <= j < table.len() && table[j] == b;
            assert(keys_of(table[i]).contains(key) && keys_of(table[j]).contains(key));
            if i < j {
                assert(!shares_key(table[i], table[j]));
            } else {
                assert(!shares_key(table[j], table[i]));
            }
        }
    } else {
        let k = choose|k: int| 0 <= k < cands.len() && cands[k] == a;
        assert(cands.drop_first()[k - 1] == a);
        lemma_first_match_owner(cands.drop_first(), table, key, a);
    }
}

/// In a table without conflicts, a key finds the action of the table that
/// it triggers.
pub proof fn law_find_returns_owner(table: Seq<Action>, key: Key, a: Action)
    requires
        conflict_free(table),
        table.contains(a),
        keys_of(a).contains(key),
    ensures
        first_match(all_actions(), table, key) == Some(a),
{
    lemma_all_actions_complete(a);
    lemma_first_match_owner(all_actions(), table, key, a);
}

/// Two entries of a table that share a key make it conflicting.
pub proof fn law_shared_key_conflicts(table: Seq<Action>, i: int, j: int, key: Key)
    requires
        0 <= i < table.len(),
        0 <= j < table.len(),
        i != j,
        keys_of(table[i]).contains(key),
        keys_of(table[j]).contains(key),
    ensures
        !conflict_free(table),
{
    if i < j {
        assert(shares_key(table[i], table[j]));
    } else {
        assert(shares_key(table[j], table[i]));
    }
}

fn keys_contain(keys: &Vec<Key>, key: Key) -> (r: bool)
    ensures
        r == keys@.contains(key),
{
    let mut i: usize = 0;
    while i < keys.len()
        invariant
            i <= keys.len(),
            forall|j: int| 0 <= j < i ==> keys@[j] != key,
        decreases keys.len() - i,
    {
        if keys[i] == key {
            return true;
        }
        i = i + 1;
    }
    false
}

impl Action {
    /// All actions, in lookup order.
    pub fn iterator() -> (r: Vec<Action>)
        ensures
            r@ == all_actions(),
    {
        vec![
            Action::Quit,
            Action::Sleep,
            Action::Focus(Widgets::CountryFilter),
            Action::Focus(Widgets::Protocols),
            Action::Focus(Widgets::Mirrors),
            Action::Focus(Widgets::SelectedCountries),
            Action::Action,
            Action::SimpleExport,
            Action::RateExport,
        ]
    }

    /// The keys that trigger this action.
    pub fn keys(&self) -> (r: Vec<Key>)
        ensures
            r@ == keys_of(*self),
    {
        match self {
            Action::Quit => vec![Key::Ctrl('c')],
            Action::Sleep => vec![Key::Ctrl('s')],
            Action::Focus(Widgets::CountryFilter) => vec![Key::Ctrl('f')],
            Action::Focus(Widgets::Protocols) => vec![Key::Ctrl('p')],
            Action::Focus(Widgets::Mirrors) => vec![Key::Ctrl('a')],
            Action::Focus(Widgets::SelectedCountries) => vec![Key::Ctrl('o')],
            Action::Action => vec![
                Key::Char('a'),
                Key::Char('b'),
                Key::Char('c'),
                Key::Char('d'),
                Key::Char('e'),
                Key::Char('f'),
                Key::Char('g'),
                Key::Char('h'),
                Key::Char('i'),
                Key::Char('j'),
                Key::Char('k'),
                Key::Char('l'),
                Key::Char('m'),
                Key::Char('n'),
                Key::Char('o'),
                Key::Char('p'),
                Key::Char('q'),
                Key::Char('r'),
                Key::Char('s'),
                Key::Char('t'),
                Key::Char('u'),
                Key::Char('v'),
                Key::Char('w'),
                Key::Char('x'),
                Key::Char('y'),
                Key::Char('z'),
                Key::Char(' '),
                Key::Up,
                Key::Enter,
                Key::Down,
                Key::Backspace,
                Key::Esc,
            ],
            Action::SimpleExport => vec![Key::Ctrl('e')],
            Action::RateExport => vec![Key::Ctrl('r')],
        }
    }

    /// Short description shown to the user.
    pub fn label(&self) -> (r: &'static str)
        ensures
            r@ == action_label(*self),
    {
        match self {
            Action::Quit => "Quit",
            Action::Sleep => "Sleep",
            Action::Focus(Widgets::CountryFilter) => "Focus Filter",
            Action::Focus(Widgets::Protocols) => "Focus Protocols",
            Action::Focus(Widgets::Mirrors) => "Focus Mirrors",
            Action::Focus(Widgets::SelectedCountries) => "Focus Countries",
            Action::Action => "Action",
            Action::SimpleExport => "Export",
            Action::RateExport => "Rate and Export",
        }
    }
}

/// Two entries of a proposed table that a common key triggers.
#[derive(Debug, Clone, Copy, PartialEq, Eq, Structural)]
pub struct ActionConflict {
    pub key: Key,
    pub first: Action,
    pub second: Action,
}

/// The actions that are legal in the current context, no two of which
/// share a key.
#[derive(Debug)]
pub struct Actions(Vec<Action>);

impl View for Actions {
    type V = Seq<Action>;

    closed spec fn view(&self) -> Seq<Action> {
        self.0@
    }
}

impl Actions {
    #[verifier::type_invariant]
    spec fn inv(&self) -> bool {
        conflict_free(self.0@)
    }

    /// Builds a table from `actions`, refusing it when two of its entries
    /// share a key.
    pub fn new(actions: Vec<Action>) -> (r: Result<Actions, ActionConflict>)
        ensures
            r is Ok <==> conflict_free(actions@),
            r matches Ok(t) ==> t@ == actions@,
            r matches Err(e) ==> exists|i: int, j: int|
                0 <= i < j < actions@.len() && actions@[i] == e.first && actions@[j] == e.second
                    && keys_of(e.first).contains(e.key) && keys_of(e.second).contains(e.key),
    {
        let n = actions.len();
        let mut i: usize = 0;
        while i < n
            invariant
                n == actions@.len(),
                i <= n,
                forall|a: int, b: int|
                    0 <= a < i && a < b < n ==> !shares_key(
                        #[trigger] actions@[a],
                        #[trigger] actions@[b],
                    ),
            decreases n - i,
        {
            let keys = actions[i].keys();
            let mut j: usize = i + 1;
            while j < n
                invariant
                    n == actions@.len(),
                    i < n,
                    i < j <= n,
                    keys@ == keys_of(actions@[i as int]),
                    forall|a: int, b: int|
                        0 <= a < i && a < b < n ==> !shares_key(
                            #[trigger] actions@[a],
                            #[trigger] actions@[b],
                        ),
                    forall|b: int| i < b < j ==> !shares_key(actions@[i as int], #[trigger] actions@[b]),
                decreases n - j,
            {
                let other = actions[j].keys();
                let mut k: usize = 0;
                while k < keys.len()
                    invariant
                        n == actions@.len(),
                        i < j < n,
                        k <= keys@.len(),
                        keys@ == keys_of(actions@[i as int]),
                        other@ == keys_of(actions@[j as int]),
                        forall|m: int| 0 <= m < k ==> !other@.contains(#[trigger] keys@[m]),
                    decreases keys.len() - k,
                {
                    if keys_contain(&other, keys[k]) {
                        return Err(ActionConflict { key: keys[k], first: actions[i], second: actions[j] });
                    }
                    k = k + 1;
                }
                assert(!shares_key(actions@[i as int], actions@[j as int])) by {
                    if shares_key(actions@[i as int], actions@[j as int]) {
                        let key = choose|key: Key| #[trigger] keys@.contains(key) && other@.contains(key);
                        let m = choose|m: int| 0 <= m < keys@.len() && keys@[m] == key;
                        assert(!other@.contains(keys@[m]));
                    }
                }
                j = j + 1;
            }
            i = i + 1;
        }
        Ok(Actions(actions))
    }

    /// Builds a table that is known to be free of conflicts.
    pub fn from_conflict_free(actions: Vec<Action>) -> (r: Actions)
        requires
            conflict_free(actions@),
        ensures
            r@ == actions@,
    {
        Actions(actions)
    }

    /// The actions of the table, in the order they were given.
    pub fn as_slice(&self) -> (r: &[Action])
        ensures
            r@ == self@,
    {
        self.0.as_slice()
    }

    /// The action of the table that `key` triggers, taking the first in
    /// lookup order; `None` when no action of the table has that key.
    pub fn find(&self, key: Key) -> (r: Option<Action>)
        ensures
            r == first_match(all_actions(), self@, key),
            forall|b: Action| #[trigger] self@.contains(b) && keys_of(b).contains(key) ==> r == Some(b),
    {
        proof {
            use_type_invariant(self);
            assert forall|b: Action| #[trigger] self@.contains(b) && keys_of(b).contains(key) implies first_match(
                all_actions(),
                self@,
                key,
            ) == Some(b) by {
                law_find_returns_owner(self@, key, b);
            }
        }
        let all = Action::iterator();
        let mut i: usize = 0;
        assert(all@.skip(0) =~= all@);
        while i < all.len()
            invariant
                all@ == all_actions(),
                i <= all@.len(),
                first_match(all_actions(), self@, key) == first_match(all@.skip(i as int), self@, key),
            decreases all.len() - i,
        {
            let candidate = all[i];
            assert(all@.skip(i as int).drop_first() =~= all@.skip(i + 1));
            if self.holds(candidate) && keys_contain(&candidate.keys(), key) {
                return Some(candidate);
            }
            i = i + 1;
        }
        None
    }

    /// Whether `action` is in the table.
    pub fn holds(&self, action: Action) -> (r: bool)
        ensures
            r == self@.contains(action),
    {
        let mut i: usize = 0;
        while i < self.0.len()
            invariant
                i <= self.0@.len(),
                forall|j: int| 0 <= j < i ==> self.0@[j] != action,
            decreases self.0.len() - i,
        {
            if self.0[i] == action {
                return true;
            }
            i = i + 1;
        }
        false
    }
}

} // verus!
