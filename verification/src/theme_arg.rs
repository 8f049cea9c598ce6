//! Themes by name, and the cyclic order of a fixed list of them.

use crate::text::{matches_ignoring_case, same_text, text_matches_ignoring_case};
use iced::theme::Base;
use vstd::prelude::*;
use vstd::string::StringExecFns;

verus! {

/// Name of the theme that is used where none is chosen.
pub open spec fn default_theme_name() -> Seq<char> {
    "Dark"@
}

/// A theme, known by its name.
#[derive(Debug, PartialEq, Eq)]
pub struct ThemeArg {
    name: String,
}

impl View for ThemeArg {
    type V = Seq<char>;

    closed spec fn view(&self) -> Seq<char> {
        self.name@
    }
}

impl Clone for ThemeArg {
    fn clone(&self) -> (copy: Self)
        ensures
            copy@ == self@,
    {
        ThemeArg { name: self.name.clone() }
    }
}

impl Default for ThemeArg {
    fn default() -> (theme: Self)
        ensures
            theme@ == default_theme_name(),
    {
        ThemeArg { name: "Dark".to_owned() }
    }
}

/// The place of `name` in `names`, where it occurs.
pub open spec fn place_of_name(names: Seq<Seq<char>>, name: Seq<char>) -> int {
    choose|i: int| 0 <= i < names.len() && names[i] == name
}

/// The name that follows `current` in `names`, the first following the last.
pub open spec fn cyclic_next(names: Seq<Seq<char>>, current: Seq<char>) -> Seq<char> {
    names[(place_of_name(names, current) + 1) % (names.len() as int)]
}

/// The name that precedes `current` in `names`, the last preceding the first.
pub open spec fn cyclic_prev(names: Seq<Seq<char>>, current: Seq<char>) -> Seq<char> {
    names[(place_of_name(names, current) + names.len() - 1) % (names.len() as int)]
}

/// `current` after `n` steps forward through `names`.
pub open spec fn cyclic_next_times(names: Seq<Seq<char>>, current: Seq<char>, n: nat) -> Seq<char>
    decreases n,
{
    if n == 0 {
        current
    } else {
        cyclic_next(names, cyclic_next_times(names, current, (n - 1) as nat))
    }
}

/// `input` selects `name`: exactly, or but for the case of ASCII letters.
pub open spec fn selects(name: Seq<char>, input: Seq<char>, ignore_case: bool) -> bool {
    if ignore_case {
        text_matches_ignoring_case(name, input)
    } else {
        name == input
    }
}

/// The first name of `names` that `input` selects, if there is one.
pub open spec fn selected_name(names: Seq<Seq<char>>, input: Seq<char>, ignore_case: bool) -> Option<
    Seq<char>,
>
    decreases names.len(),
{
    if names.len() == 0 {
        None
    } else if selects(names[0], input, ignore_case) {
        Some(names[0])
    } else {
        selected_name(names.drop_first(), input, ignore_case)
    }
}

/// The message for an input that selects no theme.
pub open spec fn unknown_theme_message(input: Seq<char>) -> Seq<char> {
    "could not get iced theme "@ + input
}

/// In a list without repetition a name stands at one place only.
pub proof fn lemma_place_of_name(names: Seq<Seq<char>>, i: int)
    requires
        names.no_duplicates(),
        0 <= i < names.len(),
    ensures
        place_of_name(names, names[i]) == i,
{
    let k = place_of_name(names, names[i]);
    assert(0 <= k < names.len() && names[k] == names[i]);
}

/// Stepping forward and then back returns to the theme one started from,
/// and so does stepping back and then forward.
pub proof fn lemma_next_prev_round_trip(names: Seq<Seq<char>>, current: Seq<char>)
    requires
        names.no_duplicates(),
        names.contains(current),
    ensures
        names.contains(cyclic_next(names, current)),
        names.contains(cyclic_prev(names, current)),
        cyclic_prev(names, cyclic_next(names, current)) == current,
        cyclic_next(names, cyclic_prev(names, current)) == current,
{
    let n = names.len() as int;
    let i = place_of_name(names, current);
    assert(0 <= i < n && names[i] == current);
    let up = (i + 1) % n;
    let down = (i + n - 1) % n;
    assert(up == if i + 1 == n { 0 } else { i + 1 }) by (nonlinear_arith)
        requires
            0 <= i < n,
            up == (i + 1) % n,
    ;
    assert(down == if i == 0 { n - 1 } else { i - 1 }) by (nonlinear_arith)
        requires
            0 <= i < n,
            down == (i + n - 1) % n,
    ;
    lemma_place_of_name(names, up);
    lemma_place_of_name(names, down);
    assert((up + n - 1) % n == i) by (nonlinear_arith)
        requires
            0 <= i < n,
            up == if i + 1 == n { 0 } else { i + 1 },
    ;
    assert((down + 1) % n == i) by (nonlinear_arith)
        requires
            0 <= i < n,
            down == if i == 0 { n - 1 } else { i - 1 },
    ;
}

/// After `k` steps forward the theme stands `k` places further on, counted
/// round the list.
pub proof fn lemma_next_times_place(names: Seq<Seq<char>>, current: Seq<char>, k: nat)
    requires
        names.no_duplicates(),
        names.contains(current),
    ensures
        cyclic_next_times(names, current, k) == names[(place_of_name(names, current) + k) % (
        names.len() as int)],
    decreases k,
{
    let n = names.len() as int;
    let i = place_of_name(names, current);
    assert(0 <= i < n && names[i] == current);
    if k == 0 {
        assert((i + 0) % n == i) by (nonlinear_arith)
            requires
                0 <= i < n,
        ;
    } else {
        lemma_next_times_place(names, current, (k - 1) as nat);
        let at = (i + (k - 1)) % n;
        assert(0 <= at < n) by (nonlinear_arith)
            requires
                n > 0,
                at == (i + (k - 1)) % n,
        ;
        lemma_place_of_name(names, at);
        assert((at + 1) % n == (i + k) % n) by {
            vstd::arithmetic::div_mod::lemma_add_mod_noop(i + (k - 1), 1, n);
            vstd::arithmetic::div_mod::lemma_mod_twice(i + (k - 1), n);
            vstd::arithmetic::div_mod::lemma_add_mod_noop(at, 1, n);
        }
    }
}

/// As many steps forward as the list has themes lead back to the start.
pub proof fn lemma_full_cycle(names: Seq<Seq<char>>, current: Seq<char>)
    requires
        names.no_duplicates(),
        names.contains(current),
    ensures
        cyclic_next_times(names, current, names.len()) == current,
{
    let n = names.len() as int;
    let i = place_of_name(names, current);
    assert(0 <= i < n && names[i] == current);
    lemma_next_times_place(names, current, names.len());
    assert((i + n) % n == i) by (nonlinear_arith)
        requires
            0 <= i < n,
    ;
}

/// The views of a list of names, in the same order.
pub open spec fn names_view(names: Seq<String>) -> Seq<Seq<char>> {
    Seq::new(names.len(), |i: int| names[i]@)
}

/// A fixed list of themes, none of them twice.
#[derive(Debug)]
pub struct ThemeSet {
    names: Vec<String>,
}

impl View for ThemeSet {
    type V = Seq<Seq<char>>;

    closed spec fn view(&self) -> Seq<Seq<char>> {
        names_view(self.names@)
    }
}

/// Name of the built-in theme at place `index` of the toolkit's list, none
/// from the end of that list on.
pub uninterp spec fn builtin_theme(index: usize) -> Option<Seq<char>>;

/// Reads `iced::Theme::ALL` at `index` and takes the theme's `name()`. The
/// list is a constant of the toolkit, so the result depends on the index
/// alone; nothing is claimed of the names themselves.
#[verifier::external_body]
fn builtin_theme_name(index: usize) -> (name: Option<String>)
    ensures
        match name {
            Some(n) => builtin_theme(index) == Some(n@),
            None => builtin_theme(index) is None,
        },
{
    iced::Theme::ALL.get(index).map(|theme| theme.name().to_owned())
}

/// `names` are the built-in themes: place by place up to the first place
/// that holds none.
pub open spec fn is_builtin_list(names: Seq<Seq<char>>) -> bool {
    &&& names.len() <= usize::MAX
    &&& forall|i: int| 0 <= i < names.len() ==> builtin_theme(i as usize) == Some(#[trigger] names[i])
    &&& (names.len() < usize::MAX ==> builtin_theme(names.len() as usize) is None)
}

impl ThemeSet {
    #[verifier::type_invariant]
    spec fn distinct(&self) -> bool {
        names_view(self.names@).no_duplicates()
    }

    /// The list of the given names, if none of them occurs twice.
    pub fn new(names: Vec<String>) -> (themes: Option<Self>)
        ensures
            match themes {
                Some(t) => t@ == names_view(names@) && t@.no_duplicates(),
                None => !names_view(names@).no_duplicates(),
            },
    {
        let ghost all = names_view(names@);
        let mut i: usize = 0;
        while i < names.len()
            invariant
                i <= names@.len(),
                all == names_view(names@),
                forall|a: int, b: int| 0 <= a < b < i ==> all[a] != all[b],
            decreases names@.len() - i,
        {
            let mut j: usize = 0;
            while j < i
                invariant
                    j <= i < names@.len(),
                    all == names_view(names@),
                    forall|a: int| 0 <= a < j ==> all[a] != all[i as int],
                decreases i - j,
            {
                if same_text(names[j].as_str(), names[i].as_str()) {
                    proof {
                        assert(all[j as int] == all[i as int]);
                    }
                    return None;
                }
                j += 1;
            }
            i += 1;
        }
        Some(ThemeSet { names })
    }

    /// The themes that the toolkit has built in, if none of their names
    /// occurs twice.
    pub fn builtin() -> (themes: Option<Self>)
        ensures
            match themes {
                Some(t) => is_builtin_list(t@) && t@.no_duplicates(),
                None => exists|names: Seq<Seq<char>>|
                    is_builtin_list(names) && !names.no_duplicates(),
            },
    {
        let mut names: Vec<String> = Vec::new();
        let mut i: usize = 0;
        while i < usize::MAX
            invariant
                i == names@.len(),
                forall|k: int| 0 <= k < i ==> builtin_theme(k as usize) == Some(#[trigger] names@[k]@),
            decreases usize::MAX - i,
        {
            match builtin_theme_name(i) {
                Some(name) => {
                    names.push(name);
                    i += 1;
                },
                None => {
                    return Self::new(names);
                },
            }
        }
        Self::new(names)
    }

    /// Number of themes.
    pub fn len(&self) -> (n: usize)
        ensures
            n == self@.len(),
            self@.no_duplicates(),
    {
        proof {
            use_type_invariant(self);
        }
        self.names.len()
    }

    /// Name of the theme at place `i`.
    pub fn name_at(&self, i: usize) -> (name: &str)
        requires
            i < self@.len(),
        ensures
            name@ == self@[i as int],
    {
        self.names[i].as_str()
    }

    /// The theme at place `i`.
    pub fn theme_at(&self, i: usize) -> (theme: ThemeArg)
        requires
            i < self@.len(),
        ensures
            theme@ == self@[i as int],
    {
        ThemeArg { name: self.names[i].clone() }
    }

    /// All themes, in the order of the list.
    pub fn value_variants(&self) -> (all: Vec<ThemeArg>)
        ensures
            all@.len() == self@.len(),
            forall|i: int| 0 <= i < all@.len() ==> (#[trigger] all@[i])@ == self@[i],
    {
        let mut all: Vec<ThemeArg> = Vec::new();
        let mut i: usize = 0;
        while i < self.names.len()
            invariant
                i <= self.names@.len(),
                all@.len() == i,
                forall|k: int| 0 <= k < i ==> (#[trigger] all@[k])@ == self@[k],
            decreases self.names@.len() - i,
        {
            all.push(self.theme_at(i));
            i += 1;
        }
        all
    }

    /// The place of the theme called `name`, if the list has it.
    pub fn position(&self, name: &str) -> (place: Option<usize>)
        ensures
            match place {
                Some(i) => i < self@.len() && self@[i as int] == name@ && i == place_of_name(
                    self@,
                    name@,
                ),
                None => !self@.contains(name@),
            },
    {
        proof {
            use_type_invariant(self);
        }
        let mut i: usize = 0;
        while i < self.names.len()
            invariant
                i <= self.names@.len(),
                self@ == names_view(self.names@),
                self@.no_duplicates(),
                forall|k: int| 0 <= k < i ==> self@[k] != name@,
            decreases self.names@.len() - i,
        {
            if same_text(self.names[i].as_str(), name) {
                proof {
                    lemma_place_of_name(self@, i as int);
                }
                return Some(i);
            }
            i += 1;
        }
        None
    }

    /// Whether the list has the theme.
    pub fn contains(&self, theme: &ThemeArg) -> (found: bool)
        ensures
            found == self@.contains(theme@),
    {
        self.position(theme.name.as_str()).is_some()
    }

    /// The first theme of the list that `input` selects: by its exact name,
    /// or with `ignore_case` by its name but for the case of ASCII letters.
    /// Without such a theme the error names the input.
    pub fn lookup(&self, input: &str, ignore_case: bool) -> (found: Result<ThemeArg, String>)
        ensures
            match found {
                Ok(theme) => selected_name(self@, input@, ignore_case) == Some(theme@)
                    && self@.contains(theme@),
                Err(message) => selected_name(self@, input@, ignore_case) is None && message@
                    == unknown_theme_message(input@),
            },
    {
        let ghost all = self@;
        proof {
            lemma_selected_is_listed(all, input@, ignore_case);
        }
        let mut i: usize = 0;
        proof {
            assert(all.skip(0) =~= all);
        }
        while i < self.names.len()
            invariant
                i <= self.names@.len(),
                all == names_view(self.names@),
                selected_name(all, input@, ignore_case) == selected_name(
                    all.skip(i as int),
                    input@,
                    ignore_case,
                ),
            decreases self.names@.len() - i,
        {
            let name = self.names[i].as_str();
            let hit = if ignore_case {
                matches_ignoring_case(name, input)
            } else {
                same_text(name, input)
            };
            proof {
                let rest = all.skip(i as int);
                assert(rest[0] == all[i as int]);
                assert(rest.drop_first() =~= all.skip(i + 1));
            }
            if hit {
                return Ok(self.theme_at(i));
            }
            i += 1;
        }
        Err(String::from_str("could not get iced theme ").concat(input))
    }
}

impl ThemeArg {
    /// The theme of the given name.
    pub fn new(name: String) -> (theme: Self)
        ensures
            theme@ == name@,
    {
        ThemeArg { name }
    }

    /// Name of the theme.
    pub fn name(&self) -> (name: &str)
        ensures
            name@ == self@,
    {
        self.name.as_str()
    }

    /// Check if argument is default value.
    pub fn is_default(&self) -> (default: bool)
        ensures
            default == (self@ == default_theme_name()),
    {
        same_text(self.name.as_str(), "Dark")
    }

    /// Get the cyclic next variant.
    pub fn next_cyclic(&self, themes: &ThemeSet) -> (next: Self)
        requires
            themes@.contains(self@),
        ensures
            next@ == cyclic_next(themes@, self@),
            themes@.contains(next@),
    {
        let n = themes.len();
        let place = themes.position(self.name.as_str());
        let i = place.unwrap();
        let j: usize = if i + 1 == n {
            0
        } else {
            i + 1
        };
        proof {
            let len = n as int;
            let at = i as int;
            assert((at + 1) % len == j) by (nonlinear_arith)
                requires
                    0 <= at < len,
                    j == if at + 1 == len { 0 } else { at + 1 },
            ;
        }
        themes.theme_at(j)
    }

    /// Get the cyclic prev variant.
    pub fn prev_cyclic(&self, themes: &ThemeSet) -> (prev: Self)
        requires
            themes@.contains(self@),
        ensures
            prev@ == cyclic_prev(themes@, self@),
            themes@.contains(prev@),
    {
        let n = themes.len();
        let place = themes.position(self.name.as_str());
        let i = place.unwrap();
        let j: usize = if i == 0 {
            n - 1
        } else {
            i - 1
        };
        proof {
            let len = n as int;
            let at = i as int;
            assert((at + len - 1) % len == j) by (nonlinear_arith)
                requires
                    0 <= at < len,
                    j == if at == 0 { len - 1 } else { at - 1 },
            ;
        }
        themes.theme_at(j)
    }

    /// The theme of the list whose name is `input` but for the case of ASCII
    /// letters; the first such theme where there are several.
    pub fn from_str(input: &str, themes: &ThemeSet) -> (found: Result<Self, String>)
        ensures
            match found {
                Ok(theme) => selected_name(themes@, input@, true) == Some(theme@)
                    && themes@.contains(theme@),
                Err(message) => selected_name(themes@, input@, true) is None && message@
                    == unknown_theme_message(input@),
            },
    {
        themes.lookup(input, true)
    }
}

/// A name that is selected is a name of the list.
pub proof fn lemma_selected_is_listed(names: Seq<Seq<char>>, input: Seq<char>, ignore_case: bool)
    ensures
        match selected_name(names, input, ignore_case) {
            Some(name) => names.contains(name) && selects(name, input, ignore_case),
            None => forall|i: int|
                0 <= i < names.len() ==> !selects(#[trigger] names[i], input, ignore_case),
        },
    decreases names.len(),
{
    if names.len() > 0 {
        let rest = names.drop_first();
        lemma_selected_is_listed(rest, input, ignore_case);
        if selects(names[0], input, ignore_case) {
            assert(names[0] == names[0]);
        } else {
            match selected_name(rest, input, ignore_case) {
                Some(name) => {
                    let k = choose|k: int| 0 <= k < rest.len() && rest[k] == name;
                    assert(names[k + 1] == name);
                },
                None => {
                    assert forall|i: int| 0 <= i < names.len() implies !selects(
                        #[trigger] names[i],
                        input,
                        ignore_case,
                    ) by {
                        if i > 0 {
                            assert(rest[i - 1] == names[i]);
                        }
                    }
                },
            }
        }
    }
}

} // verus!
