//! Menu structure: categories of settings, navigated with a few buttons.
//!
//! The menu consists of `N_CATEGORIES` categories, each of which contains
//! `N_SETTINGS` settings. The menu allows selecting a category, then selecting
//! a setting in that category, and finally adjusting that setting. Settings
//! may be disabled to hide them, which allows categories to have fewer than
//! `N_SETTINGS` actual settings.
//!
//! Each setting is a boolean on/off switch, a numeric `i16` between a minimum
//! and a maximum, or a choice among a list of names.
//!
//! The menu state can be serialised to and from a slice of `u16`, one word
//! per setting.
use vstd::prelude::*;
use crate::name::{Name, name_text};
use vstd::arithmetic::div_mod::{lemma_small_mod, lemma_mod_add_multiples_vanish};

verus! {

/// The character of decimal digit `d`.
pub open spec fn digit_char(d: nat) -> char {
    if d == 0 { '0' }
    else if d == 1 { '1' }
    else if d == 2 { '2' }
    else if d == 3 { '3' }
    else if d == 4 { '4' }
    else if d == 5 { '5' }
    else if d == 6 { '6' }
    else if d == 7 { '7' }
    else if d == 8 { '8' }
    else { '9' }
}

/// The decimal digits of `n`, most significant first, without leading zeros.
pub open spec fn digits_text(n: nat) -> Seq<char>
    decreases n,
{
    if n < 10 {
        seq![digit_char(n)]
    } else {
        digits_text(n / 10) + seq![digit_char(n % 10)]
    }
}

/// The decimal text of `v`, with a leading `-` when negative.
pub open spec fn decimal_text(v: int) -> Seq<char> {
    if v < 0 {
        seq!['-'] + digits_text((-v) as nat)
    } else {
        digits_text(v as nat)
    }
}

fn digit_str(d: u32) -> (r: &'static str)
    requires
        d < 10,
    ensures
        r@ == seq![digit_char(d as nat)],
{
    proof {
        reveal_strlit("0");
        reveal_strlit("1");
        reveal_strlit("2");
        reveal_strlit("3");
        reveal_strlit("4");
        reveal_strlit("5");
        reveal_strlit("6");
        reveal_strlit("7");
        reveal_strlit("8");
        reveal_strlit("9");
    }
    match d {
        0 => "0",
        1 => "1",
        2 => "2",
        3 => "3",
        4 => "4",
        5 => "5",
        6 => "6",
        7 => "7",
        8 => "8",
        _ => "9",
    }
}

fn append_digits(s: &mut String, n: u32)
    ensures
        final(s)@ == old(s)@ + digits_text(n as nat),
    decreases n,
{
    if n >= 10 {
        append_digits(s, n / 10);
    }
    s.append(digit_str(n % 10));
    assert(final(s)@ =~= old(s)@ + digits_text(n as nat));
}

/// The decimal text of `v`.
fn decimal_string(v: i16) -> (r: String)
    ensures
        r@ == decimal_text(v as int),
{
    let mut s = String::new();
    if v < 0 {
        proof {
            reveal_strlit("-");
        }
        s.append("-");
        append_digits(&mut s, (0i32 - v as i32) as u32);
    } else {
        append_digits(&mut s, v as u32);
    }
    assert(s@ =~= decimal_text(v as int));
    s
}

/// The first place of `v` in `names`, if any.
fn position_of(names: &[Name], v: Name) -> (r: Option<usize>)
    ensures
        r is None <==> !names@.contains(v),
        r matches Some(i) ==> i < names@.len() && names@[i as int] == v
            && forall|j: int| 0 <= j < i ==> names@[j] != v,
{
    let mut i: usize = 0;
    while i < names.len()
        invariant
            i <= names@.len(),
            forall|j: int| 0 <= j < i ==> names@[j] != v,
        decreases names@.len() - i,
    {
        if names[i] == v {
            return Some(i);
        }
        i = i + 1;
    }
    None
}

/// The value of one setting.
#[derive(Copy, Clone, Debug)]
pub enum Value {
    OnOff(bool),
    Numeric { min: i16, max: i16, val: i16 },
    Choice { index: usize, choices: &'static [Name] },
}

impl Value {
    /// A choice points into its list.
    pub open spec fn valid(self) -> bool {
        match self {
            Value::Choice { index, choices } => index < choices@.len(),
            _ => true,
        }
    }

    /// A step forward stays within `i16`: a number at `i16::MAX` can only
    /// step forward from its maximum, where it wraps to its minimum.
    pub open spec fn can_step_up(self) -> bool {
        match self {
            Value::Numeric { max, val, .. } => val == max || val < i16::MAX,
            _ => true,
        }
    }

    /// A step back stays within `i16`: a number at `i16::MIN` can only step
    /// back from its minimum, where it wraps to its maximum.
    pub open spec fn can_step_down(self) -> bool {
        match self {
            Value::Numeric { min, val, .. } => val == min || val > i16::MIN,
            _ => true,
        }
    }

    /// The text displayed for the value.
    pub open spec fn text(self) -> Seq<char> {
        match self {
            Value::OnOff(b) => if b { "On"@ } else { "Off"@ },
            Value::Numeric { val, .. } => decimal_text(val as int),
            Value::Choice { index, choices } => name_text(choices@[index as int]),
        }
    }

    /// The value after one step forward: a switch toggles, a number counts
    /// up and wraps from its maximum to its minimum, a choice moves to the
    /// next name and wraps from the last to the first.
    pub open spec fn stepped_up(self) -> Value {
        match self {
            Value::OnOff(b) => Value::OnOff(!b),
            Value::Numeric { min, max, val } =>
                Value::Numeric { min, max, val: if val == max { min } else { (val + 1) as i16 } },
            Value::Choice { index, choices } =>
                Value::Choice { index: if index == choices@.len() - 1 { 0 } else { (index + 1) as usize }, choices },
        }
    }

    /// The value after one step back, the reverse of a step forward.
    pub open spec fn stepped_down(self) -> Value {
        match self {
            Value::OnOff(b) => Value::OnOff(!b),
            Value::Numeric { min, max, val } =>
                Value::Numeric { min, max, val: if val == min { max } else { (val - 1) as i16 } },
            Value::Choice { index, choices } =>
                Value::Choice { index: if index == 0 { (choices@.len() - 1) as usize } else { (index - 1) as usize }, choices },
        }
    }

    /// The word that stores the value: a switch as 0 or 1, a number in
    /// two's complement, a choice as its index.
    pub open spec fn word(self) -> u16 {
        match self {
            Value::OnOff(b) => if b { 1 } else { 0 },
            Value::Numeric { val, .. } => val as u16,
            Value::Choice { index, .. } => index as u16,
        }
    }

    /// The value restored from a stored word. A word that would put a choice
    /// outside its list leaves the value as it is.
    pub open spec fn restored(self, word: u16) -> Value {
        match self {
            Value::OnOff(_) => Value::OnOff(word != 0),
            Value::Numeric { min, max, .. } => Value::Numeric { min, max, val: word as i16 },
            Value::Choice { index, choices } =>
                if (word as int) < choices@.len() {
                    Value::Choice { index: word as usize, choices }
                } else {
                    self
                },
        }
    }
}

/// `new` is `old` after `set_onoff(v)` returned `r`.
pub open spec fn onoff_set(old: Setting, new: Setting, v: bool, r: Option<()>) -> bool {
    &&& new.name_spec() == old.name_spec()
    &&& new.enabled_spec() == old.enabled_spec()
    &&& (r is Some <==> old.value_spec() is OnOff)
    &&& new.value_spec() == if r is Some { Value::OnOff(v) } else { old.value_spec() }
}

/// `new` is `old` after `set_numeric(v)` returned `r`.
pub open spec fn numeric_set(old: Setting, new: Setting, v: i16, r: Option<()>) -> bool {
    &&& new.name_spec() == old.name_spec()
    &&& new.enabled_spec() == old.enabled_spec()
    &&& match old.value_spec() {
        Value::Numeric { min, max, .. } => if min <= v <= max {
            r is Some && new.value_spec() == (Value::Numeric { min, max, val: v })
        } else {
            r is None && new.value_spec() == old.value_spec()
        },
        _ => r is None && new.value_spec() == old.value_spec(),
    }
}

/// `new` is `old` after `set_choice(v)` returned `r`: `v` chosen at its
/// first place in the list, if the setting is a choice that offers it.
pub open spec fn choice_set(old: Setting, new: Setting, v: Name, r: Option<()>) -> bool {
    &&& new.name_spec() == old.name_spec()
    &&& new.enabled_spec() == old.enabled_spec()
    &&& match old.value_spec() {
        Value::Choice { choices, .. } => if choices@.contains(v) {
            &&& r is Some
            &&& new.value_spec() matches Value::Choice { index, choices: c }
            &&& c == choices
            &&& index < choices@.len()
            &&& choices@[index as int] == v
            &&& forall|j: int| 0 <= j < index ==> choices@[j] != v
        } else {
            r is None && new.value_spec() == old.value_spec()
        },
        _ => r is None && new.value_spec() == old.value_spec(),
    }
}

/// `new` is `old` after `set_max(new_max)` returned `r`.
pub open spec fn max_set(old: Setting, new: Setting, new_max: i16, r: Option<()>) -> bool {
    &&& new.name_spec() == old.name_spec()
    &&& new.enabled_spec() == old.enabled_spec()
    &&& match old.value_spec() {
        Value::Numeric { min, val, .. } => r is Some && new.value_spec() == (Value::Numeric {
            min,
            max: new_max,
            val: if val > new_max { new_max } else { val },
        }),
        _ => r is None && new.value_spec() == old.value_spec(),
    }
}

/// One adjustable setting.
#[derive(Copy, Clone, Debug)]
pub struct Setting {
    name: Name,
    enabled: bool,
    value: Value,
}

impl Setting {
    pub closed spec fn name_spec(&self) -> Name {
        self.name
    }

    pub closed spec fn enabled_spec(&self) -> bool {
        self.enabled
    }

    pub closed spec fn value_spec(&self) -> Value {
        self.value
    }

    /// The setting's value is valid.
    pub open spec fn wf(&self) -> bool {
        self.value_spec().valid()
    }

    pub fn new(name: Name, enabled: bool, value: Value) -> (r: Self)
        requires
            value.valid(),
        ensures
            r.wf(),
            r.name_spec() == name,
            r.enabled_spec() == enabled,
            r.value_spec() == value,
    {
        Setting { name, enabled, value }
    }

    pub fn new_onoff(name: Name, enabled: bool, value: bool) -> (r: Self)
        ensures
            r.wf(),
            r.name_spec() == name,
            r.enabled_spec() == enabled,
            r.value_spec() == Value::OnOff(value),
    {
        Self::new(name, enabled, Value::OnOff(value))
    }

    pub fn new_numeric(name: Name, enabled: bool, min: i16, max: i16, val: i16) -> (r: Self)
        ensures
            r.wf(),
            r.name_spec() == name,
            r.enabled_spec() == enabled,
            r.value_spec() == (Value::Numeric { min, max, val }),
    {
        Self::new(name, enabled, Value::Numeric { min, max, val })
    }

    pub fn new_choice(name: Name, enabled: bool, index: usize, choices: &'static [Name]) -> (r: Self)
        requires
            index < choices@.len(),
        ensures
            r.wf(),
            r.name_spec() == name,
            r.enabled_spec() == enabled,
            r.value_spec() == (Value::Choice { index, choices }),
    {
        Self::new(name, enabled, Value::Choice { index, choices })
    }

    /// A placeholder for an unused slot: named `Unused`, disabled, off.
    pub fn new_disabled() -> (r: Self)
        ensures
            r.wf(),
            r.name_spec() == Name::Unused,
            !r.enabled_spec(),
            r.value_spec() == Value::OnOff(false),
    {
        Self::new(Name::Unused, false, Value::OnOff(false))
    }

    pub fn name(&self) -> (r: Name)
        ensures
            r == self.name_spec(),
    {
        self.name
    }

    pub fn value(&self) -> (r: &Value)
        ensures
            *r == self.value_spec(),
    {
        &self.value
    }

    /// The state of an on/off setting; `None` for other kinds.
    pub fn onoff(&self) -> (r: Option<bool>)
        ensures
            r == (match self.value_spec() {
                Value::OnOff(b) => Some(b),
                _ => None,
            }),
    {
        if let Value::OnOff(b) = self.value {
            Some(b)
        } else {
            None
        }
    }

    /// Set an on/off setting; `None`, with nothing changed, for other kinds.
    pub fn set_onoff(&mut self, v: bool) -> (r: Option<()>)
        requires
            old(self).wf(),
        ensures
            final(self).wf(),
            onoff_set(*old(self), *final(self), v, r),
    {
        if let Value::OnOff(_) = self.value {
            self.value = Value::OnOff(v);
            Some(())
        } else {
            None
        }
    }

    /// The number of a numeric setting; `None` for other kinds.
    pub fn numeric(&self) -> (r: Option<i16>)
        ensures
            r == (match self.value_spec() {
                Value::Numeric { val, .. } => Some(val),
                _ => None,
            }),
    {
        if let Value::Numeric { val, .. } = self.value {
            Some(val)
        } else {
            None
        }
    }

    /// Set a numeric setting to `v` when `v` lies between its bounds;
    /// otherwise, or for other kinds, `None` with nothing changed.
    pub fn set_numeric(&mut self, v: i16) -> (r: Option<()>)
        requires
            old(self).wf(),
        ensures
            final(self).wf(),
            numeric_set(*old(self), *final(self), v, r),
    {
        if let Value::Numeric { min, max, .. } = self.value {
            if v >= min && v <= max {
                self.value = Value::Numeric { min, max, val: v };
                Some(())
            } else {
                None
            }
        } else {
            None
        }
    }

    /// The chosen name of a choice setting; `None` for other kinds.
    pub fn choice(&self) -> (r: Option<Name>)
        requires
            self.wf(),
        ensures
            r == (match self.value_spec() {
                Value::Choice { index, choices } => Some(choices@[index as int]),
                _ => None,
            }),
    {
        if let Value::Choice { index, choices } = self.value {
            Some(choices[index])
        } else {
            None
        }
    }

    /// Choose `v` in a choice setting, at its first place in the list;
    /// `None`, with nothing changed, when the list lacks it or for other kinds.
    pub fn set_choice(&mut self, v: Name) -> (r: Option<()>)
        requires
            old(self).wf(),
        ensures
            final(self).wf(),
            choice_set(*old(self), *final(self), v, r),
    {
        if let Value::Choice { choices, .. } = self.value {
            if let Some(i) = position_of(choices, v) {
                self.value = Value::Choice { index: i, choices };
                return Some(());
            }
        }
        None
    }

    /// The text displayed for the setting's value.
    pub fn render(&self) -> (r: String)
        requires
            self.wf(),
        ensures
            r@ == self.value_spec().text(),
    {
        match self.value {
            Value::OnOff(b) => {
                if b {
                    String::from_str("On")
                } else {
                    String::from_str("Off")
                }
            },
            Value::Numeric { val, .. } => decimal_string(val),
            Value::Choice { index, choices } => String::from_str(choices[index].into_str()),
        }
    }

    /// Step the value forward.
    pub fn inc(&mut self)
        requires
            old(self).wf(),
            old(self).value_spec().can_step_up(),
        ensures
            final(self).wf(),
            final(self).name_spec() == old(self).name_spec(),
            final(self).enabled_spec() == old(self).enabled_spec(),
            final(self).value_spec() == old(self).value_spec().stepped_up(),
    {
        self.value = match self.value {
            Value::OnOff(b) => Value::OnOff(!b),
            Value::Numeric { min, max, val } => Value::Numeric {
                min,
                max,
                val: if val == max { min } else { val + 1 },
            },
            Value::Choice { index, choices } => Value::Choice {
                index: if index == choices.len() - 1 { 0 } else { index + 1 },
                choices,
            },
        };
    }

    /// Step the value back.
    pub fn dec(&mut self)
        requires
            old(self).wf(),
            old(self).value_spec().can_step_down(),
        ensures
            final(self).wf(),
            final(self).name_spec() == old(self).name_spec(),
            final(self).enabled_spec() == old(self).enabled_spec(),
            final(self).value_spec() == old(self).value_spec().stepped_down(),
    {
        self.value = match self.value {
            Value::OnOff(b) => Value::OnOff(!b),
            Value::Numeric { min, max, val } => Value::Numeric {
                min,
                max,
                val: if val == min { max } else { val - 1 },
            },
            Value::Choice { index, choices } => Value::Choice {
                index: if index == 0 { choices.len() - 1 } else { index - 1 },
                choices,
            },
        };
    }

    /// The word that stores the value.
    pub fn serialise(&self) -> (r: u16)
        ensures
            r == self.value_spec().word(),
    {
        match self.value {
            Value::OnOff(b) => if b { 1 } else { 0 },
            Value::Numeric { val, .. } => val as u16,
            Value::Choice { index, .. } => index as u16,
        }
    }

    /// Restore the value from a stored word.
    pub fn deserialise(&mut self, word: u16)
        requires
            old(self).wf(),
        ensures
            final(self).wf(),
            final(self).name_spec() == old(self).name_spec(),
            final(self).enabled_spec() == old(self).enabled_spec(),
            final(self).value_spec() == old(self).value_spec().restored(word),
    {
        match self.value {
            Value::OnOff(_) => {
                self.value = Value::OnOff(word != 0);
            },
            Value::Numeric { min, max, .. } => {
                self.value = Value::Numeric { min, max, val: word as i16 };
            },
            Value::Choice { choices, .. } => {
                if (word as usize) < choices.len() {
                    self.value = Value::Choice { index: word as usize, choices };
                }
            },
        }
    }

    /// Change the maximum of a numeric setting, lowering the number to it if
    /// needed. Another kind of setting gives `None` with nothing changed.
    pub fn set_max(&mut self, new_max: i16) -> (r: Option<()>)
        requires
            old(self).wf(),
        ensures
            final(self).wf(),
            max_set(*old(self), *final(self), new_max, r),
    {
        if let Value::Numeric { min, val, .. } = self.value {
            self.value = Value::Numeric { min, max: new_max, val: if val > new_max { new_max } else { val } };
            Some(())
        } else {
            None
        }
    }

    pub fn enabled(&self) -> (r: bool)
        ensures
            r == self.enabled_spec(),
    {
        self.enabled
    }

    pub fn set_enabled(&mut self, enabled: bool)
        ensures
            final(self).enabled_spec() == enabled,
            final(self).name_spec() == old(self).name_spec(),
            final(self).value_spec() == old(self).value_spec(),
    {
        self.enabled = enabled;
    }
}

/// `i` is the first place in `settings` of a setting named `name`.
pub open spec fn is_first_named(settings: Seq<Setting>, i: int, name: Name) -> bool {
    &&& 0 <= i < settings.len()
    &&& settings[i].name_spec() == name
    &&& forall|j: int| 0 <= j < i ==> (#[trigger] settings[j]).name_spec() != name
}

/// No setting in `settings` is named `name`.
pub open spec fn none_named(settings: Seq<Setting>, name: Name) -> bool {
    forall|j: int| 0 <= j < settings.len() ==> (#[trigger] settings[j]).name_spec() != name
}

/// The place after `index` of the next enabled setting, wrapping around, or
/// `index` itself when no other setting is enabled (then it is the only
/// candidate, enabled or not).
pub open spec fn next_enabled(settings: Seq<Setting>, index: int, j: int) -> bool {
    &&& 1 <= j <= settings.len()
    &&& (j < settings.len() ==> settings[(index + j) % (settings.len() as int)].enabled_spec())
    &&& forall|k: int| 1 <= k < j ==> !(#[trigger] settings[(index + k) % (settings.len() as int)]).enabled_spec()
}

/// The place before `index` of the previous enabled setting, wrapping
/// around, counted as `j` steps back.
pub open spec fn prev_enabled(settings: Seq<Setting>, index: int, j: int) -> bool {
    &&& 1 <= j <= settings.len()
    &&& (j < settings.len() ==> settings[(index - j + settings.len() as int) % (settings.len() as int)].enabled_spec())
    &&& forall|k: int| 1 <= k < j ==> !(#[trigger] settings[(index - k + settings.len() as int) % (settings.len() as int)]).enabled_spec()
}

/// The words that store the settings of `settings` in order; a slot named
/// `Unused` stores none.
pub open spec fn stored_words(settings: Seq<Setting>) -> Seq<u16>
    decreases settings.len(),
{
    if settings.len() == 0 {
        seq![]
    } else {
        let rest = stored_words(settings.drop_last());
        if settings.last().name_spec() != Name::Unused {
            rest.push(settings.last().value_spec().word())
        } else {
            rest
        }
    }
}

/// The number of words stored for the settings before place `i`.
pub open spec fn word_rank(settings: Seq<Setting>, i: int) -> int {
    stored_words(settings.take(i)).len() as int
}

/// `new` holds the settings of `old` restored from the words of `data` from
/// place `offset` on: the `k`-th stored setting takes word `offset + k`
/// while there is one, and every other setting stays as it is.
pub open spec fn restored_from(old: Seq<Setting>, new: Seq<Setting>, data: Seq<u16>, offset: int) -> bool {
    &&& new.len() == old.len()
    &&& forall|i: int| 0 <= i < old.len() ==> {
        &&& (#[trigger] new[i]).name_spec() == old[i].name_spec()
        &&& new[i].enabled_spec() == old[i].enabled_spec()
        &&& new[i].value_spec() == if old[i].name_spec() != Name::Unused && offset + word_rank(old, i) < data.len() {
            old[i].value_spec().restored(data[offset + word_rank(old, i)])
        } else {
            old[i].value_spec()
        }
    }
}

/// The smaller of two integers.
pub open spec fn min_int(a: int, b: int) -> int {
    if a < b { a } else { b }
}

proof fn lemma_wrap(a: int, n: int)
    requires
        0 < n,
        0 <= a < 2 * n,
    ensures
        a % n == if a < n { a } else { a - n },
{
    if a < n {
        lemma_small_mod(a as nat, n as nat);
    } else {
        lemma_mod_add_multiples_vanish(a - n, n);
        lemma_small_mod((a - n) as nat, n as nat);
    }
}

/// How many words a list of settings stores depends on their names alone.
proof fn lemma_stored_words_names_only(a: Seq<Setting>, b: Seq<Setting>)
    requires
        a.len() == b.len(),
        forall|i: int| 0 <= i < a.len() ==> (#[trigger] a[i]).name_spec() == b[i].name_spec(),
    ensures
        stored_words(a).len() == stored_words(b).len(),
    decreases a.len(),
{
    if a.len() > 0 {
        lemma_stored_words_names_only(a.drop_last(), b.drop_last());
    }
}

proof fn lemma_stored_words_step(settings: Seq<Setting>, i: int)
    requires
        0 <= i < settings.len(),
    ensures
        stored_words(settings.take(i + 1)) == if settings[i].name_spec() != Name::Unused {
            stored_words(settings.take(i)).push(settings[i].value_spec().word())
        } else {
            stored_words(settings.take(i))
        },
{
    assert(settings.take(i + 1).drop_last() =~= settings.take(i));
}

/// The stored words of the first `j` settings start the stored words of all.
proof fn lemma_stored_words_prefix(settings: Seq<Setting>, j: int)
    requires
        0 <= j <= settings.len(),
    ensures
        stored_words(settings).len() >= stored_words(settings.take(j)).len(),
        stored_words(settings).take(stored_words(settings.take(j)).len() as int)
            == stored_words(settings.take(j)),
    decreases settings.len(),
{
    if j == settings.len() {
        assert(settings.take(j) =~= settings);
        assert(stored_words(settings).take(stored_words(settings).len() as int) =~= stored_words(settings));
    } else {
        let rest = settings.drop_last();
        assert(rest.take(j) =~= settings.take(j));
        lemma_stored_words_prefix(rest, j);
        let k = stored_words(settings.take(j)).len() as int;
        assert(stored_words(settings).take(k) =~= stored_words(rest).take(k));
    }
}

/// The word of a stored setting sits at its rank among the stored words.
proof fn lemma_word_at_rank(settings: Seq<Setting>, i: int)
    requires
        0 <= i < settings.len(),
        settings[i].name_spec() != Name::Unused,
    ensures
        word_rank(settings, i) < stored_words(settings).len(),
        stored_words(settings)[word_rank(settings, i)] == settings[i].value_spec().word(),
{
    lemma_stored_words_step(settings, i);
    lemma_stored_words_prefix(settings, i + 1);
    let k = word_rank(settings, i);
    assert(stored_words(settings).take(k + 1)[k] == settings[i].value_spec().word());
}

/// Two values have the same kind and the same content: the same switch
/// state, the same number, or the same place in a list of the same length.
/// Bounds may differ.
pub open spec fn same_content(a: Value, b: Value) -> bool {
    match (a, b) {
        (Value::OnOff(x), Value::OnOff(y)) => x == y,
        (Value::Numeric { val: x, .. }, Value::Numeric { val: y, .. }) => x == y,
        (Value::Choice { index: x, choices: cx }, Value::Choice { index: y, choices: cy }) =>
            x == y && cx@.len() == cy@.len(),
        _ => false,
    }
}

/// Two values have the same kind, and choices lists of the same length.
pub open spec fn same_kind(a: Value, b: Value) -> bool {
    match (a, b) {
        (Value::OnOff(_), Value::OnOff(_)) => true,
        (Value::Numeric { .. }, Value::Numeric { .. }) => true,
        (Value::Choice { choices: cx, .. }, Value::Choice { choices: cy, .. }) => cx@.len() == cy@.len(),
        _ => false,
    }
}

proof fn lemma_value_word_round_trip(src: Value, dst: Value)
    requires
        src.valid(),
        same_kind(dst, src),
        src matches Value::Choice { index, .. } ==> index < 0x10000,
    ensures
        same_content(dst.restored(src.word()), src),
{
    match src {
        Value::Numeric { val, .. } => {
            assert(((val as u16) as i16) == val) by (bit_vector);
        },
        Value::Choice { index, .. } => {
            assert(((index as u16) as usize) == index) by (bit_vector)
                requires
                    index < 0x10000usize,
            ;
        },
        _ => {},
    }
}

/// Restoring settings from the stored words of settings with the same
/// names and kinds gives every stored setting the same content as its
/// source, wherever in `data` those words begin.
pub proof fn lemma_restore_round_trip(src: Seq<Setting>, old: Seq<Setting>, new: Seq<Setting>, data: Seq<u16>, offset: int)
    requires
        old.len() == src.len(),
        forall|i: int| 0 <= i < src.len() ==> (#[trigger] src[i]).wf(),
        forall|i: int| 0 <= i < src.len() ==> (#[trigger] old[i]).name_spec() == src[i].name_spec()
            && same_kind(old[i].value_spec(), src[i].value_spec()),
        forall|i: int| 0 <= i < src.len() ==> ((#[trigger] src[i]).value_spec() matches Value::Choice { index, .. }
            ==> index < 0x10000),
        0 <= offset,
        offset + stored_words(src).len() <= data.len(),
        data.subrange(offset, offset + stored_words(src).len()) == stored_words(src),
        restored_from(old, new, data, offset),
    ensures
        forall|i: int| 0 <= i < src.len() && src[i].name_spec() != Name::Unused
            ==> same_content((#[trigger] new[i]).value_spec(), src[i].value_spec()),
{
    assert forall|i: int| 0 <= i < src.len() && src[i].name_spec() != Name::Unused
        implies same_content((#[trigger] new[i]).value_spec(), src[i].value_spec()) by {
        lemma_word_at_rank(src, i);
        lemma_stored_words_names_only(old.take(i), src.take(i));
        let k = word_rank(src, i);
        assert(word_rank(old, i) == k);
        assert(data[offset + k] == data.subrange(offset, offset + stored_words(src).len())[k]);
        lemma_value_word_round_trip(src[i].value_spec(), old[i].value_spec());
    }
}

/// A named category of `N_SETTINGS` settings, one of which is highlighted.
#[derive(Copy, Clone, Debug)]
pub struct Category<const N_SETTINGS: usize> {
    name: Name,
    index: usize,
    setting_selected: bool,
    settings: [Setting; N_SETTINGS],
}

impl<const N_SETTINGS: usize> Category<N_SETTINGS> {
    pub closed spec fn name_spec(&self) -> Name {
        self.name
    }

    /// The place of the highlighted setting.
    pub closed spec fn index_spec(&self) -> int {
        self.index as int
    }

    /// Whether the highlighted setting is being adjusted.
    pub closed spec fn selected_spec(&self) -> bool {
        self.setting_selected
    }

    pub closed spec fn settings_spec(&self) -> Seq<Setting> {
        self.settings@
    }

    /// The category has a setting, highlights one of them, and all are valid.
    pub open spec fn wf(&self) -> bool {
        &&& N_SETTINGS > 0
        &&& self.settings_spec().len() == N_SETTINGS
        &&& 0 <= self.index_spec() < N_SETTINGS
        &&& forall|i: int| 0 <= i < N_SETTINGS ==> (#[trigger] self.settings_spec()[i]).wf()
    }

    /// `self` equals `old` but for the setting at `i`.
    pub open spec fn same_but_setting(self, old: Self, i: int) -> bool {
        &&& self.name_spec() == old.name_spec()
        &&& self.index_spec() == old.index_spec()
        &&& self.selected_spec() == old.selected_spec()
        &&& self.settings_spec() == old.settings_spec().update(i, self.settings_spec()[i])
    }

    /// While a setting is being adjusted, stepping it forward stays within `i16`.
    pub open spec fn can_inc(&self) -> bool {
        self.selected_spec() ==> self.settings_spec()[self.index_spec()].value_spec().can_step_up()
    }

    /// While a setting is being adjusted, stepping it back stays within `i16`.
    pub open spec fn can_dec(&self) -> bool {
        self.selected_spec() ==> self.settings_spec()[self.index_spec()].value_spec().can_step_down()
    }

    /// A category with the first setting highlighted and none being adjusted.
    pub fn new(name: Name, settings: [Setting; N_SETTINGS]) -> (r: Self)
        requires
            N_SETTINGS > 0,
            forall|i: int| 0 <= i < N_SETTINGS ==> (#[trigger] settings@[i]).wf(),
        ensures
            r.wf(),
            r.name_spec() == name,
            r.index_spec() == 0,
            !r.selected_spec(),
            r.settings_spec() == settings@,
    {
        Category { name, index: 0, setting_selected: false, settings }
    }

    pub fn name(&self) -> (r: Name)
        ensures
            r == self.name_spec(),
    {
        self.name
    }

    /// The first place of a setting named `name`, if any.
    fn find(&self, name: Name) -> (r: Option<usize>)
        requires
            self.wf(),
        ensures
            r is None <==> none_named(self.settings_spec(), name),
            r matches Some(i) ==> is_first_named(self.settings_spec(), i as int, name),
    {
        let mut i: usize = 0;
        while i < N_SETTINGS
            invariant
                self.wf(),
                i <= N_SETTINGS,
                forall|j: int| 0 <= j < i ==> (#[trigger] self.settings_spec()[j]).name_spec() != name,
            decreases N_SETTINGS - i,
        {
            if self.settings[i].name() == name {
                return Some(i);
            }
            i = i + 1;
        }
        None
    }

    /// The first setting named `name`, if any.
    pub fn setting(&self, name: Name) -> (r: Option<&Setting>)
        requires
            self.wf(),
        ensures
            r is None <==> none_named(self.settings_spec(), name),
            r is Some ==> exists|i: int| is_first_named(self.settings_spec(), i, name),
            forall|i: int| is_first_named(self.settings_spec(), i, name) ==> r == Some(&self.settings_spec()[i]),
    {
        match self.find(name) {
            Some(i) => Some(&self.settings[i]),
            None => None,
        }
    }

    /// The first setting named `name`, if any, for changing in place.
    pub fn setting_mut(&mut self, name: Name) -> (r: Option<&mut Setting>)
        requires
            old(self).wf(),
        ensures
            r is None <==> none_named(old(self).settings_spec(), name),
            r is None ==> *final(self) == *old(self),
            r is Some ==> exists|i: int| is_first_named(old(self).settings_spec(), i, name),
            forall|i: int| is_first_named(old(self).settings_spec(), i, name) ==> {
                &&& r is Some
                &&& *r.unwrap() == old(self).settings_spec()[i]
                &&& final(self).settings_spec() == old(self).settings_spec().update(i, *final(r.unwrap()))
                &&& final(self).name_spec() == old(self).name_spec()
                &&& final(self).index_spec() == old(self).index_spec()
                &&& final(self).selected_spec() == old(self).selected_spec()
            },
    {
        match self.find(name) {
            Some(i) => Some(&mut self.settings[i]),
            None => None,
        }
    }

    /// The name of the highlighted setting.
    pub fn setting_name(&self) -> (r: Name)
        requires
            self.wf(),
        ensures
            r == self.settings_spec()[self.index_spec()].name_spec(),
    {
        self.settings[self.index].name()
    }

    /// Whether the highlighted setting is being adjusted.
    pub fn setting_selected(&self) -> (r: bool)
        ensures
            r == self.selected_spec(),
    {
        self.setting_selected
    }

    /// The state of the first setting named `name`, if it is an on/off setting.
    pub fn setting_onoff(&self, name: Name) -> (r: Option<bool>)
        requires
            self.wf(),
        ensures
            none_named(self.settings_spec(), name) ==> r is None,
            forall|i: int| is_first_named(self.settings_spec(), i, name) ==>
                r == (match self.settings_spec()[i].value_spec() {
                    Value::OnOff(b) => Some(b),
                    _ => None,
                }),
    {
        match self.setting(name) {
            Some(s) => s.onoff(),
            None => None,
        }
    }

    /// The number of the first setting named `name`, if it is numeric.
    pub fn setting_numeric(&self, name: Name) -> (r: Option<i16>)
        requires
            self.wf(),
        ensures
            none_named(self.settings_spec(), name) ==> r is None,
            forall|i: int| is_first_named(self.settings_spec(), i, name) ==>
                r == (match self.settings_spec()[i].value_spec() {
                    Value::Numeric { val, .. } => Some(val),
                    _ => None,
                }),
    {
        match self.setting(name) {
            Some(s) => s.numeric(),
            None => None,
        }
    }

    /// The chosen name of the first setting named `name`, if it is a choice.
    pub fn setting_choice(&self, name: Name) -> (r: Option<Name>)
        requires
            self.wf(),
        ensures
            none_named(self.settings_spec(), name) ==> r is None,
            forall|i: int| is_first_named(self.settings_spec(), i, name) ==>
                r == (match self.settings_spec()[i].value_spec() {
                    Value::Choice { index, choices } => Some(choices@[index as int]),
                    _ => None,
                }),
    {
        match self.setting(name) {
            Some(s) => s.choice(),
            None => None,
        }
    }

    /// Set the first setting named `name`, if it is an on/off setting.
    pub fn setting_set_onoff(&mut self, name: Name, v: bool) -> (r: Option<()>)
        requires
            old(self).wf(),
        ensures
            final(self).wf(),
            none_named(old(self).settings_spec(), name) ==> r is None && *final(self) == *old(self),
            forall|i: int| is_first_named(old(self).settings_spec(), i, name) ==> {
                &&& final(self).same_but_setting(*old(self), i)
                &&& onoff_set(old(self).settings_spec()[i], final(self).settings_spec()[i], v, r)
            },
    {
        match self.setting_mut(name) {
            Some(s) => s.set_onoff(v),
            None => None,
        }
    }

    /// Set the first setting named `name` to `v`, if it is numeric and `v`
    /// lies between its bounds.
    pub fn setting_set_numeric(&mut self, name: Name, v: i16) -> (r: Option<()>)
        requires
            old(self).wf(),
        ensures
            final(self).wf(),
            none_named(old(self).settings_spec(), name) ==> r is None && *final(self) == *old(self),
            forall|i: int| is_first_named(old(self).settings_spec(), i, name) ==> {
                &&& final(self).same_but_setting(*old(self), i)
                &&& numeric_set(old(self).settings_spec()[i], final(self).settings_spec()[i], v, r)
            },
    {
        match self.setting_mut(name) {
            Some(s) => s.set_numeric(v),
            None => None,
        }
    }

    /// Choose `v` in the first setting named `name`, if it is a choice that offers `v`.
    pub fn setting_set_choice(&mut self, name: Name, v: Name) -> (r: Option<()>)
        requires
            old(self).wf(),
        ensures
            final(self).wf(),
            none_named(old(self).settings_spec(), name) ==> r is None && *final(self) == *old(self),
            forall|i: int| is_first_named(old(self).settings_spec(), i, name) ==> {
                &&& final(self).same_but_setting(*old(self), i)
                &&& choice_set(old(self).settings_spec()[i], final(self).settings_spec()[i], v, r)
            },
    {
        match self.setting_mut(name) {
            Some(s) => s.set_choice(v),
            None => None,
        }
    }

    /// Enable or disable the first setting named `name`; `None` if there is none.
    pub fn setting_set_enabled(&mut self, name: Name, enabled: bool) -> (r: Option<()>)
        requires
            old(self).wf(),
        ensures
            final(self).wf(),
            none_named(old(self).settings_spec(), name) ==> r is None && *final(self) == *old(self),
            forall|i: int| is_first_named(old(self).settings_spec(), i, name) ==> {
                &&& r is Some
                &&& final(self).same_but_setting(*old(self), i)
                &&& final(self).settings_spec()[i].enabled_spec() == enabled
                &&& final(self).settings_spec()[i].name_spec() == name
                &&& final(self).settings_spec()[i].value_spec() == old(self).settings_spec()[i].value_spec()
            },
    {
        match self.setting_mut(name) {
            Some(s) => {
                s.set_enabled(enabled);
                Some(())
            },
            None => None,
        }
    }

    /// Change the maximum of the first setting named `name`, if it is numeric.
    pub fn setting_set_max(&mut self, name: Name, max: i16) -> (r: Option<()>)
        requires
            old(self).wf(),
        ensures
            final(self).wf(),
            none_named(old(self).settings_spec(), name) ==> r is None && *final(self) == *old(self),
            forall|i: int| is_first_named(old(self).settings_spec(), i, name) ==> {
                &&& final(self).same_but_setting(*old(self), i)
                &&& max_set(old(self).settings_spec()[i], final(self).settings_spec()[i], max, r)
            },
    {
        match self.setting_mut(name) {
            Some(s) => s.set_max(max),
            None => None,
        }
    }

    /// The text displayed for the highlighted setting's value.
    pub fn render_value(&self) -> (r: String)
        requires
            self.wf(),
        ensures
            r@ == self.settings_spec()[self.index_spec()].value_spec().text(),
    {
        self.settings[self.index].render()
    }

    /// Write the words of the stored settings into `data` from `offset` on,
    /// as many as fit; returns how many were written.
    fn serialise_at(&self, data: &mut [u16], offset: usize) -> (n: usize)
        requires
            self.wf(),
            offset <= old(data)@.len(),
        ensures
            n == min_int(stored_words(self.settings_spec()).len() as int, old(data)@.len() - offset),
            final(data)@.len() == old(data)@.len(),
            final(data)@ == old(data)@.take(offset as int) + stored_words(self.settings_spec()).take(n as int)
                + old(data)@.skip(offset + n),
    {
        let ghost start = data@;
        let mut n: usize = 0;
        let mut i: usize = 0;
        while i < N_SETTINGS
            invariant
                self.wf(),
                i <= N_SETTINGS,
                offset <= start.len(),
                data@.len() == start.len(),
                n == min_int(stored_words(self.settings_spec().take(i as int)).len() as int, start.len() - offset),
                data@ == start.take(offset as int) + stored_words(self.settings_spec().take(i as int)).take(n as int)
                    + start.skip(offset + n),
            decreases N_SETTINGS - i,
        {
            proof {
                lemma_stored_words_step(self.settings_spec(), i as int);
            }
            let setting = &self.settings[i];
            if setting.name() != Name::Unused {
                if n < data.len() - offset {
                    let ghost before = data@;
                    data[offset + n] = setting.serialise();
                    assert(data@ =~= start.take(offset as int)
                        + stored_words(self.settings_spec().take(i + 1)).take(n + 1)
                        + start.skip(offset + n + 1));
                    n = n + 1;
                }
            }
            i = i + 1;
        }
        assert(self.settings_spec().take(N_SETTINGS as int) =~= self.settings_spec());
        n
    }

    /// Write the words of the stored settings into `data`, as many as fit;
    /// returns how many were written.
    pub fn serialise(&self, data: &mut [u16]) -> (n: usize)
        requires
            self.wf(),
        ensures
            n == min_int(stored_words(self.settings_spec()).len() as int, old(data)@.len() as int),
            final(data)@ == stored_words(self.settings_spec()).take(n as int) + old(data)@.skip(n as int),
    {
        let n = self.serialise_at(data, 0);
        assert(old(data)@.take(0) + stored_words(self.settings_spec()).take(n as int) =~= stored_words(self.settings_spec()).take(n as int));
        n
    }

    /// Restore the stored settings from the words of `data` from `offset`
    /// on, while there are words; returns how many were read.
    fn deserialise_at(&mut self, data: &[u16], offset: usize) -> (n: usize)
        requires
            old(self).wf(),
            offset <= data@.len(),
        ensures
            final(self).wf(),
            final(self).name_spec() == old(self).name_spec(),
            final(self).index_spec() == old(self).index_spec(),
            final(self).selected_spec() == old(self).selected_spec(),
            n == min_int(stored_words(old(self).settings_spec()).len() as int, data@.len() - offset),
            restored_from(old(self).settings_spec(), final(self).settings_spec(), data@, offset as int),
            stored_words(final(self).settings_spec()).len() == stored_words(old(self).settings_spec()).len(),
    {
        let ghost start = self.settings_spec();
        let mut n: usize = 0;
        let mut i: usize = 0;
        while i < N_SETTINGS
            invariant
                self.wf(),
                i <= N_SETTINGS,
                offset <= data@.len(),
                self.name_spec() == old(self).name_spec(),
                self.index_spec() == old(self).index_spec(),
                self.selected_spec() == old(self).selected_spec(),
                start == old(self).settings_spec(),
                n == min_int(word_rank(start, i as int), data@.len() - offset),
                forall|k: int| i <= k < N_SETTINGS ==> #[trigger] self.settings_spec()[k] == start[k],
                forall|k: int| 0 <= k < i ==> {
                    &&& (#[trigger] self.settings_spec()[k]).name_spec() == start[k].name_spec()
                    &&& self.settings_spec()[k].enabled_spec() == start[k].enabled_spec()
                    &&& self.settings_spec()[k].value_spec() == if start[k].name_spec() != Name::Unused
                        && offset + word_rank(start, k) < data@.len() {
                        start[k].value_spec().restored(data@[offset + word_rank(start, k)])
                    } else {
                        start[k].value_spec()
                    }
                },
            decreases N_SETTINGS - i,
        {
            proof {
                lemma_stored_words_step(start, i as int);
            }
            if self.settings[i].name() != Name::Unused {
                if n < data.len() - offset {
                    let word = data[offset + n];
                    self.settings[i].deserialise(word);
                    n = n + 1;
                }
            }
            i = i + 1;
        }
        assert(start.take(N_SETTINGS as int) =~= start);
        proof {
            lemma_stored_words_names_only(start, self.settings_spec());
        }
        n
    }

    /// Restore the stored settings from the words of `data`, while there are
    /// words; returns how many were read.
    pub fn deserialise(&mut self, data: &[u16]) -> (n: usize)
        requires
            old(self).wf(),
        ensures
            final(self).wf(),
            final(self).name_spec() == old(self).name_spec(),
            final(self).index_spec() == old(self).index_spec(),
            final(self).selected_spec() == old(self).selected_spec(),
            n == min_int(stored_words(old(self).settings_spec()).len() as int, data@.len() as int),
            restored_from(old(self).settings_spec(), final(self).settings_spec(), data@, 0),
    {
        self.deserialise_at(data, 0)
    }

    /// While a setting is being adjusted, step it forward and return `true`.
    /// Otherwise highlight the next enabled setting, wrapping around, and
    /// return `false`.
    pub fn inc(&mut self) -> (r: bool)
        requires
            old(self).wf(),
            old(self).can_inc(),
        ensures
            final(self).wf(),
            r == old(self).selected_spec(),
            final(self).name_spec() == old(self).name_spec(),
            final(self).selected_spec() == old(self).selected_spec(),
            old(self).selected_spec() ==> {
                let i = old(self).index_spec();
                &&& final(self).same_but_setting(*old(self), i)
                &&& final(self).settings_spec()[i].name_spec() == old(self).settings_spec()[i].name_spec()
                &&& final(self).settings_spec()[i].enabled_spec() == old(self).settings_spec()[i].enabled_spec()
                &&& final(self).settings_spec()[i].value_spec() == old(self).settings_spec()[i].value_spec().stepped_up()
            },
            !old(self).selected_spec() ==> {
                &&& final(self).settings_spec() == old(self).settings_spec()
                &&& exists|j: int| next_enabled(old(self).settings_spec(), old(self).index_spec(), j)
                    && final(self).index_spec() == (old(self).index_spec() + j) % (N_SETTINGS as int)
            },
    {
        if self.setting_selected {
            self.settings[self.index].inc();
            true
        } else {
            let start = self.index;
            let mut j: usize = 1;
            while j < N_SETTINGS
                invariant
                    old(self).wf(),
                    *self == *old(self),
                    !old(self).setting_selected,
                    start == old(self).index,
                    1 <= j <= N_SETTINGS,
                    forall|k: int| 1 <= k < j ==>
                        !(#[trigger] self.settings_spec()[(start + k) % (N_SETTINGS as int)]).enabled_spec(),
                decreases N_SETTINGS - j,
            {
                let idx = if j < N_SETTINGS - start { start + j } else { j - (N_SETTINGS - start) };
                proof {
                    lemma_wrap(start + j, N_SETTINGS as int);
                }
                if self.settings[idx].enabled() {
                    self.index = idx;
                    assert(next_enabled(old(self).settings_spec(), start as int, j as int));
                    return false;
                }
                j = j + 1;
            }
            proof {
                lemma_wrap(start + N_SETTINGS, N_SETTINGS as int);
                assert(next_enabled(old(self).settings_spec(), start as int, N_SETTINGS as int));
            }
            false
        }
    }

    /// While a setting is being adjusted, step it back and return `true`.
    /// Otherwise highlight the previous enabled setting, wrapping around, and
    /// return `false`.
    pub fn dec(&mut self) -> (r: bool)
        requires
            old(self).wf(),
            old(self).can_dec(),
        ensures
            final(self).wf(),
            r == old(self).selected_spec(),
            final(self).name_spec() == old(self).name_spec(),
            final(self).selected_spec() == old(self).selected_spec(),
            old(self).selected_spec() ==> {
                let i = old(self).index_spec();
                &&& final(self).same_but_setting(*old(self), i)
                &&& final(self).settings_spec()[i].name_spec() == old(self).settings_spec()[i].name_spec()
                &&& final(self).settings_spec()[i].enabled_spec() == old(self).settings_spec()[i].enabled_spec()
                &&& final(self).settings_spec()[i].value_spec() == old(self).settings_spec()[i].value_spec().stepped_down()
            },
            !old(self).selected_spec() ==> {
                &&& final(self).settings_spec() == old(self).settings_spec()
                &&& exists|j: int| prev_enabled(old(self).settings_spec(), old(self).index_spec(), j)
                    && final(self).index_spec() == (old(self).index_spec() - j + N_SETTINGS as int) % (N_SETTINGS as int)
            },
    {
        if self.setting_selected {
            self.settings[self.index].dec();
            true
        } else {
            let start = self.index;
            let mut j: usize = 1;
            while j < N_SETTINGS
                invariant
                    old(self).wf(),
                    *self == *old(self),
                    !old(self).setting_selected,
                    start == old(self).index,
                    1 <= j <= N_SETTINGS,
                    forall|k: int| 1 <= k < j ==>
                        !(#[trigger] self.settings_spec()[(start - k + N_SETTINGS as int) % (N_SETTINGS as int)]).enabled_spec(),
                decreases N_SETTINGS - j,
            {
                let idx = if j <= start { start - j } else { N_SETTINGS - (j - start) };
                proof {
                    lemma_wrap(start - j + N_SETTINGS, N_SETTINGS as int);
                }
                if self.settings[idx].enabled() {
                    self.index = idx;
                    assert(prev_enabled(old(self).settings_spec(), start as int, j as int));
                    return false;
                }
                j = j + 1;
            }
            proof {
                lemma_wrap(start as int, N_SETTINGS as int);
                assert(prev_enabled(old(self).settings_spec(), start as int, N_SETTINGS as int));
            }
            false
        }
    }

    /// Start or stop adjusting the highlighted setting.
    pub fn enter(&mut self)
        ensures
            final(self).selected_spec() == !old(self).selected_spec(),
            final(self).name_spec() == old(self).name_spec(),
            final(self).index_spec() == old(self).index_spec(),
            final(self).settings_spec() == old(self).settings_spec(),
    {
        self.setting_selected = !self.setting_selected;
    }

    /// Stop adjusting the highlighted setting.
    pub fn back(&mut self)
        ensures
            !final(self).selected_spec(),
            final(self).name_spec() == old(self).name_spec(),
            final(self).index_spec() == old(self).index_spec(),
            final(self).settings_spec() == old(self).settings_spec(),
    {
        self.setting_selected = false;
    }
}

/// The words that store all settings of `categories`, category by category.
pub open spec fn menu_words<const N_SETTINGS: usize>(categories: Seq<Category<N_SETTINGS>>) -> Seq<u16>
    decreases categories.len(),
{
    if categories.len() == 0 {
        seq![]
    } else {
        menu_words(categories.drop_last()) + stored_words(categories.last().settings_spec())
    }
}

/// `i` is the first place in `categories` of a category named `name`.
pub open spec fn is_first_category_named<const N_SETTINGS: usize>(
    categories: Seq<Category<N_SETTINGS>>,
    i: int,
    name: Name,
) -> bool {
    &&& 0 <= i < categories.len()
    &&& categories[i].name_spec() == name
    &&& forall|j: int| 0 <= j < i ==> (#[trigger] categories[j]).name_spec() != name
}

/// No category in `categories` is named `name`.
pub open spec fn no_category_named<const N_SETTINGS: usize>(categories: Seq<Category<N_SETTINGS>>, name: Name) -> bool {
    forall|j: int| 0 <= j < categories.len() ==> (#[trigger] categories[j]).name_spec() != name
}

/// The words of the first `j` categories start the words of all.
proof fn lemma_menu_words_prefix<const N_SETTINGS: usize>(categories: Seq<Category<N_SETTINGS>>, j: int)
    requires
        0 <= j <= categories.len(),
    ensures
        menu_words(categories).len() >= menu_words(categories.take(j)).len(),
        menu_words(categories).take(menu_words(categories.take(j)).len() as int)
            == menu_words(categories.take(j)),
    decreases categories.len(),
{
    if j == categories.len() {
        assert(categories.take(j) =~= categories);
        assert(menu_words(categories).take(menu_words(categories).len() as int) =~= menu_words(categories));
    } else {
        let rest = categories.drop_last();
        assert(rest.take(j) =~= categories.take(j));
        lemma_menu_words_prefix(rest, j);
        let k = menu_words(categories.take(j)).len() as int;
        assert(menu_words(categories).take(k) =~= menu_words(rest).take(k));
    }
}

/// Categories whose settings have the same names store as many words.
proof fn lemma_menu_words_names_only<const N_SETTINGS: usize>(a: Seq<Category<N_SETTINGS>>, b: Seq<Category<N_SETTINGS>>)
    requires
        a.len() == b.len(),
        forall|c: int| 0 <= c < a.len() ==> (#[trigger] a[c]).settings_spec().len() == b[c].settings_spec().len(),
        forall|c: int, i: int| 0 <= c < a.len() && 0 <= i < a[c].settings_spec().len()
            ==> (#[trigger] a[c].settings_spec()[i]).name_spec() == b[c].settings_spec()[i].name_spec(),
    ensures
        menu_words(a).len() == menu_words(b).len(),
    decreases a.len(),
{
    if a.len() > 0 {
        let last = (a.len() - 1) as int;
        assert forall|i: int| 0 <= i < a[last].settings_spec().len() implies
            (#[trigger] a[last].settings_spec()[i]).name_spec() == b[last].settings_spec()[i].name_spec() by {}
        lemma_stored_words_names_only(a[last].settings_spec(), b[last].settings_spec());
        lemma_menu_words_names_only(a.drop_last(), b.drop_last());
    }
}

/// Restoring menu categories from the words stored for categories with the
/// same setting names and kinds gives every stored setting the same content
/// as its source.
pub proof fn lemma_menu_restore_round_trip<const N_SETTINGS: usize>(
    src: Seq<Category<N_SETTINGS>>,
    old: Seq<Category<N_SETTINGS>>,
    new: Seq<Category<N_SETTINGS>>,
    data: Seq<u16>,
)
    requires
        old.len() == src.len(),
        new.len() == src.len(),
        forall|c: int| 0 <= c < src.len() ==> (#[trigger] src[c]).wf() && old[c].wf(),
        forall|c: int, i: int| 0 <= c < src.len() && 0 <= i < N_SETTINGS ==> {
            let s = #[trigger] src[c].settings_spec()[i];
            &&& old[c].settings_spec()[i].name_spec() == s.name_spec()
            &&& same_kind(old[c].settings_spec()[i].value_spec(), s.value_spec())
            &&& (s.value_spec() matches Value::Choice { index, .. } ==> index < 0x10000)
        },
        menu_words(src).len() <= data.len(),
        data.take(menu_words(src).len() as int) == menu_words(src),
        forall|c: int| 0 <= c < src.len() ==> restored_from(
            (#[trigger] old[c]).settings_spec(),
            new[c].settings_spec(),
            data,
            min_int(menu_words(old.take(c)).len() as int, data.len() as int),
        ),
    ensures
        forall|c: int, i: int| 0 <= c < src.len() && 0 <= i < N_SETTINGS
            && src[c].settings_spec()[i].name_spec() != Name::Unused
            ==> same_content((#[trigger] new[c].settings_spec()[i]).value_spec(), src[c].settings_spec()[i].value_spec()),
{
    assert forall|c: int, i: int| 0 <= c < src.len() && 0 <= i < N_SETTINGS
        && src[c].settings_spec()[i].name_spec() != Name::Unused
        implies same_content((#[trigger] new[c].settings_spec()[i]).value_spec(), src[c].settings_spec()[i].value_spec()) by {
        let sc = src[c].settings_spec();
        let oc = old[c].settings_spec();
        assert forall|k: int, j: int| 0 <= k < old.take(c).len() && 0 <= j < old.take(c)[k].settings_spec().len()
            implies (#[trigger] old.take(c)[k].settings_spec()[j]).name_spec() == src.take(c)[k].settings_spec()[j].name_spec() by {
            assert(src[k].settings_spec()[j] == src.take(c)[k].settings_spec()[j]);
        }
        lemma_menu_words_names_only(old.take(c), src.take(c));
        lemma_menu_words_prefix(src, c + 1);
        assert(src.take(c + 1).drop_last() =~= src.take(c));
        let off = menu_words(src.take(c)).len() as int;
        let sw = stored_words(sc);
        assert(menu_words(src.take(c + 1)) == menu_words(src.take(c)) + sw);
        assert(data.subrange(off, off + sw.len()) =~= sw) by {
            assert forall|k: int| 0 <= k < sw.len() implies data[off + k] == sw[k] by {
                assert(data.take(menu_words(src).len() as int)[off + k] == menu_words(src)[off + k]);
                assert(menu_words(src).take((off + sw.len()) as int)[off + k] == menu_words(src.take(c + 1))[off + k]);
            }
        }
        assert forall|j: int| 0 <= j < sc.len() implies (#[trigger] sc[j]).wf() by {}
        assert forall|j: int| 0 <= j < sc.len() implies (#[trigger] oc[j]).name_spec() == sc[j].name_spec()
            && same_kind(oc[j].value_spec(), sc[j].value_spec()) by {
            assert(sc[j] == src[c].settings_spec()[j]);
        }
        assert forall|j: int| 0 <= j < sc.len() implies ((#[trigger] sc[j]).value_spec() matches Value::Choice { index, .. }
            ==> index < 0x10000) by {
            assert(sc[j] == src[c].settings_spec()[j]);
        }
        assert(restored_from(oc, new[c].settings_spec(), data, off));
        lemma_restore_round_trip(sc, oc, new[c].settings_spec(), data, off);
    }
}

/// A menu of `N_CATEGORIES` categories with `N_SETTINGS` settings each.
#[derive(Copy, Clone, Debug)]
pub struct Menu<const N_CATEGORIES: usize, const N_SETTINGS: usize> {
    index: usize,
    active: bool,
    category_selected: bool,
    categories: [Category<N_SETTINGS>; N_CATEGORIES],
}

impl<const N_CATEGORIES: usize, const N_SETTINGS: usize> Menu<N_CATEGORIES, N_SETTINGS> {
    /// The place of the highlighted category.
    pub closed spec fn index_spec(&self) -> int {
        self.index as int
    }

    /// Whether the menu is shown.
    pub closed spec fn active_spec(&self) -> bool {
        self.active
    }

    /// Whether the highlighted category is open.
    pub closed spec fn category_selected_spec(&self) -> bool {
        self.category_selected
    }

    pub closed spec fn categories_spec(&self) -> Seq<Category<N_SETTINGS>> {
        self.categories@
    }

    /// The menu has a category, highlights one of them, and all are well formed.
    pub open spec fn wf(&self) -> bool {
        &&& N_CATEGORIES > 0
        &&& self.categories_spec().len() == N_CATEGORIES
        &&& 0 <= self.index_spec() < N_CATEGORIES
        &&& forall|i: int| 0 <= i < N_CATEGORIES ==> (#[trigger] self.categories_spec()[i]).wf()
    }

    /// The highlighted category.
    pub open spec fn current(&self) -> Category<N_SETTINGS> {
        self.categories_spec()[self.index_spec()]
    }

    /// Inside an open category, its `inc` stays within `i16`.
    pub open spec fn can_inc(&self) -> bool {
        self.category_selected_spec() ==> self.current().can_inc()
    }

    /// Inside an open category, its `dec` stays within `i16`.
    pub open spec fn can_dec(&self) -> bool {
        self.category_selected_spec() ==> self.current().can_dec()
    }

    /// A hidden menu with the first category highlighted.
    pub fn new(categories: [Category<N_SETTINGS>; N_CATEGORIES]) -> (r: Self)
        requires
            N_CATEGORIES > 0,
            forall|i: int| 0 <= i < N_CATEGORIES ==> (#[trigger] categories@[i]).wf(),
        ensures
            r.wf(),
            r.index_spec() == 0,
            !r.active_spec(),
            !r.category_selected_spec(),
            r.categories_spec() == categories@,
    {
        Menu { index: 0, active: false, category_selected: false, categories }
    }

    pub fn active(&self) -> (r: bool)
        ensures
            r == self.active_spec(),
    {
        self.active
    }

    /// The first place of a category named `name`, if any.
    fn find(&self, name: Name) -> (r: Option<usize>)
        requires
            self.wf(),
        ensures
            r is None <==> no_category_named(self.categories_spec(), name),
            r matches Some(i) ==> is_first_category_named(self.categories_spec(), i as int, name),
    {
        let mut i: usize = 0;
        while i < N_CATEGORIES
            invariant
                self.wf(),
                i <= N_CATEGORIES,
                forall|j: int| 0 <= j < i ==> (#[trigger] self.categories_spec()[j]).name_spec() != name,
            decreases N_CATEGORIES - i,
        {
            if self.categories[i].name() == name {
                return Some(i);
            }
            i = i + 1;
        }
        None
    }

    /// The first category named `name`, if any.
    pub fn category(&self, name: Name) -> (r: Option<&Category<N_SETTINGS>>)
        requires
            self.wf(),
        ensures
            r is None <==> no_category_named(self.categories_spec(), name),
            r is Some ==> exists|i: int| is_first_category_named(self.categories_spec(), i, name),
            forall|i: int| is_first_category_named(self.categories_spec(), i, name)
                ==> r == Some(&self.categories_spec()[i]),
    {
        match self.find(name) {
            Some(i) => Some(&self.categories[i]),
            None => None,
        }
    }

    /// The first category named `name`, if any, for changing in place.
    pub fn category_mut(&mut self, name: Name) -> (r: Option<&mut Category<N_SETTINGS>>)
        requires
            old(self).wf(),
        ensures
            r is None <==> no_category_named(old(self).categories_spec(), name),
            r is None ==> *final(self) == *old(self),
            r is Some ==> exists|i: int| is_first_category_named(old(self).categories_spec(), i, name),
            forall|i: int| is_first_category_named(old(self).categories_spec(), i, name) ==> {
                &&& r is Some
                &&& *r.unwrap() == old(self).categories_spec()[i]
                &&& final(self).categories_spec() == old(self).categories_spec().update(i, *final(r.unwrap()))
                &&& final(self).index_spec() == old(self).index_spec()
                &&& final(self).active_spec() == old(self).active_spec()
                &&& final(self).category_selected_spec() == old(self).category_selected_spec()
            },
    {
        match self.find(name) {
            Some(i) => Some(&mut self.categories[i]),
            None => None,
        }
    }

    /// The name of the highlighted category.
    pub fn category_name(&self) -> (r: Name)
        requires
            self.wf(),
        ensures
            r == self.current().name_spec(),
    {
        self.categories[self.index].name()
    }

    /// Whether the highlighted category is open.
    pub fn category_selected(&self) -> (r: bool)
        ensures
            r == self.category_selected_spec(),
    {
        self.category_selected
    }

    /// The name of the highlighted setting of the highlighted category.
    pub fn setting_name(&self) -> (r: Name)
        requires
            self.wf(),
        ensures
            r == self.current().settings_spec()[self.current().index_spec()].name_spec(),
    {
        self.categories[self.index].setting_name()
    }

    /// Whether the highlighted setting of the highlighted category is being adjusted.
    pub fn setting_selected(&self) -> (r: bool)
        requires
            self.wf(),
        ensures
            r == self.current().selected_spec(),
    {
        self.categories[self.index].setting_selected()
    }

    /// The text displayed for the highlighted setting's value.
    pub fn render_value(&self) -> (r: String)
        requires
            self.wf(),
        ensures
            r@ == self.current().settings_spec()[self.current().index_spec()].value_spec().text(),
    {
        self.categories[self.index].render_value()
    }

    /// Write the words of all stored settings into `data`, category by
    /// category, as many as fit.
    pub fn serialise(&self, data: &mut [u16])
        requires
            self.wf(),
        ensures
            ({
                let words = menu_words(self.categories_spec());
                let m = min_int(words.len() as int, old(data)@.len() as int);
                final(data)@ == words.take(m) + old(data)@.skip(m)
            }),
    {
        let ghost start = data@;
        let len = data.len();
        let mut offset: usize = 0;
        let mut c: usize = 0;
        while c < N_CATEGORIES
            invariant
                self.wf(),
                c <= N_CATEGORIES,
                len == start.len(),
                data@.len() == start.len(),
                offset <= start.len(),
                offset == min_int(menu_words(self.categories_spec().take(c as int)).len() as int, start.len() as int),
                data@ == menu_words(self.categories_spec().take(c as int)).take(offset as int) + start.skip(offset as int),
            decreases N_CATEGORIES - c,
        {
            let ghost mw = menu_words(self.categories_spec().take(c as int));
            let ghost sw = stored_words(self.categories_spec()[c as int].settings_spec());
            assert(self.categories_spec().take(c + 1).drop_last() =~= self.categories_spec().take(c as int));
            assert(menu_words(self.categories_spec().take(c + 1)) == mw + sw);
            let n = self.categories[c].serialise_at(data, offset);
            assert((mw + sw).take(offset + n) =~= mw.take(offset as int) + sw.take(n as int));
            assert(data@ =~= (mw + sw).take(offset + n) + start.skip(offset + n));
            offset = offset + n;
            c = c + 1;
        }
        assert(self.categories_spec().take(N_CATEGORIES as int) =~= self.categories_spec());
    }

    /// Restore all stored settings from the words of `data`, category by
    /// category, while there are words.
    #[verifier::rlimit(40)]
    pub fn deserialise(&mut self, data: &[u16])
        requires
            old(self).wf(),
        ensures
            final(self).wf(),
            final(self).index_spec() == old(self).index_spec(),
            final(self).active_spec() == old(self).active_spec(),
            final(self).category_selected_spec() == old(self).category_selected_spec(),
            forall|c: int| 0 <= c < N_CATEGORIES ==> {
                let before = #[trigger] old(self).categories_spec()[c];
                let after = final(self).categories_spec()[c];
                let offset = min_int(menu_words(old(self).categories_spec().take(c)).len() as int, data@.len() as int);
                &&& after.name_spec() == before.name_spec()
                &&& after.index_spec() == before.index_spec()
                &&& after.selected_spec() == before.selected_spec()
                &&& restored_from(before.settings_spec(), after.settings_spec(), data@, offset)
            },
    {
        let ghost start = self.categories_spec();
        let len = data.len();
        let mut offset: usize = 0;
        let mut c: usize = 0;
        while c < N_CATEGORIES
            invariant
                self.wf(),
                len == data@.len(),
                c <= N_CATEGORIES,
                start == old(self).categories_spec(),
                self.index_spec() == old(self).index_spec(),
                self.active_spec() == old(self).active_spec(),
                self.category_selected_spec() == old(self).category_selected_spec(),
                offset == min_int(menu_words(start.take(c as int)).len() as int, data@.len() as int),
                offset <= data@.len(),
                forall|k: int| c <= k < N_CATEGORIES ==> #[trigger] self.categories_spec()[k] == start[k],
                forall|k: int| 0 <= k < c ==> {
                    let before = #[trigger] start[k];
                    let after = self.categories_spec()[k];
                    let off = min_int(menu_words(start.take(k)).len() as int, data@.len() as int);
                    &&& after.name_spec() == before.name_spec()
                    &&& after.index_spec() == before.index_spec()
                    &&& after.selected_spec() == before.selected_spec()
                    &&& restored_from(before.settings_spec(), after.settings_spec(), data@, off)
                },
            decreases N_CATEGORIES - c,
        {
            assert(start.take(c + 1).drop_last() =~= start.take(c as int));
            let ghost prev = self.categories_spec();
            let n = self.categories[c].deserialise_at(data, offset);
            assert(self.categories_spec() == prev.update(c as int, self.categories_spec()[c as int]));
            assert(menu_words(start.take(c + 1)) == menu_words(start.take(c as int)) + stored_words(start[c as int].settings_spec()));
            assert forall|k: int| 0 <= k < c + 1 implies {
                let before = #[trigger] start[k];
                let after = self.categories_spec()[k];
                let off = min_int(menu_words(start.take(k)).len() as int, data@.len() as int);
                &&& after.name_spec() == before.name_spec()
                &&& after.index_spec() == before.index_spec()
                &&& after.selected_spec() == before.selected_spec()
                &&& restored_from(before.settings_spec(), after.settings_spec(), data@, off)
            } by {
                if k < c {
                    assert(self.categories_spec()[k] == prev[k]);
                }
            }
            offset = offset + n;
            c = c + 1;
        }
    }

    /// Inside an open category, step or move within it and return what it
    /// returns. Otherwise highlight the next category, wrapping around, and
    /// return `false`.
    pub fn inc(&mut self) -> (r: bool)
        requires
            old(self).wf(),
            old(self).can_inc(),
        ensures
            final(self).wf(),
            final(self).active_spec() == old(self).active_spec(),
            final(self).category_selected_spec() == old(self).category_selected_spec(),
            old(self).category_selected_spec() ==> {
                &&& final(self).index_spec() == old(self).index_spec()
                &&& r == old(self).current().selected_spec()
                &&& final(self).categories_spec()
                    == old(self).categories_spec().update(old(self).index_spec(), final(self).current())
                &&& final(self).current().name_spec() == old(self).current().name_spec()
                &&& final(self).current().selected_spec() == old(self).current().selected_spec()
                &&& old(self).current().selected_spec() ==> {
                    let i = old(self).current().index_spec();
                    &&& final(self).current().same_but_setting(old(self).current(), i)
                    &&& final(self).current().settings_spec()[i].name_spec() == old(self).current().settings_spec()[i].name_spec()
                    &&& final(self).current().settings_spec()[i].enabled_spec() == old(self).current().settings_spec()[i].enabled_spec()
                    &&& final(self).current().settings_spec()[i].value_spec() == old(self).current().settings_spec()[i].value_spec().stepped_up()
                }
                &&& !old(self).current().selected_spec() ==> {
                    &&& final(self).current().settings_spec() == old(self).current().settings_spec()
                    &&& exists|j: int| next_enabled(old(self).current().settings_spec(), old(self).current().index_spec(), j)
                        && final(self).current().index_spec() == (old(self).current().index_spec() + j) % (N_SETTINGS as int)
                }
            },
            !old(self).category_selected_spec() ==> {
                &&& !r
                &&& final(self).categories_spec() == old(self).categories_spec()
                &&& final(self).index_spec() == if old(self).index_spec() == N_CATEGORIES - 1 { 0 } else { old(self).index_spec() + 1 }
            },
    {
        if self.category_selected {
            self.categories[self.index].inc()
        } else {
            if self.index == N_CATEGORIES - 1 {
                self.index = 0;
            } else {
                self.index = self.index + 1;
            }
            false
        }
    }

    /// Inside an open category, step or move back within it and return what
    /// it returns. Otherwise highlight the previous category, wrapping
    /// around, and return `false`.
    pub fn dec(&mut self) -> (r: bool)
        requires
            old(self).wf(),
            old(self).can_dec(),
        ensures
            final(self).wf(),
            final(self).active_spec() == old(self).active_spec(),
            final(self).category_selected_spec() == old(self).category_selected_spec(),
            old(self).category_selected_spec() ==> {
                &&& final(self).index_spec() == old(self).index_spec()
                &&& r == old(self).current().selected_spec()
                &&& final(self).categories_spec()
                    == old(self).categories_spec().update(old(self).index_spec(), final(self).current())
                &&& final(self).current().name_spec() == old(self).current().name_spec()
                &&& final(self).current().selected_spec() == old(self).current().selected_spec()
                &&& old(self).current().selected_spec() ==> {
                    let i = old(self).current().index_spec();
                    &&& final(self).current().same_but_setting(old(self).current(), i)
                    &&& final(self).current().settings_spec()[i].name_spec() == old(self).current().settings_spec()[i].name_spec()
                    &&& final(self).current().settings_spec()[i].enabled_spec() == old(self).current().settings_spec()[i].enabled_spec()
                    &&& final(self).current().settings_spec()[i].value_spec() == old(self).current().settings_spec()[i].value_spec().stepped_down()
                }
                &&& !old(self).current().selected_spec() ==> {
                    &&& final(self).current().settings_spec() == old(self).current().settings_spec()
                    &&& exists|j: int| prev_enabled(old(self).current().settings_spec(), old(self).current().index_spec(), j)
                        && final(self).current().index_spec()
                            == (old(self).current().index_spec() - j + N_SETTINGS as int) % (N_SETTINGS as int)
                }
            },
            !old(self).category_selected_spec() ==> {
                &&& !r
                &&& final(self).categories_spec() == old(self).categories_spec()
                &&& final(self).index_spec() == if old(self).index_spec() == 0 { N_CATEGORIES - 1 } else { old(self).index_spec() - 1 }
            },
    {
        if self.category_selected {
            self.categories[self.index].dec()
        } else {
            if self.index == 0 {
                self.index = N_CATEGORIES - 1;
            } else {
                self.index = self.index - 1;
            }
            false
        }
    }

    /// Enter key: show a hidden menu, open the highlighted category, or
    /// inside an open category start or stop adjusting the highlighted setting.
    pub fn enter(&mut self)
        requires
            old(self).wf(),
        ensures
            final(self).wf(),
            final(self).index_spec() == old(self).index_spec(),
            !old(self).active_spec() ==> {
                &&& final(self).active_spec()
                &&& !final(self).category_selected_spec()
                &&& final(self).categories_spec() == old(self).categories_spec()
            },
            old(self).active_spec() && !old(self).category_selected_spec() ==> {
                &&& final(self).active_spec()
                &&& final(self).category_selected_spec()
                &&& final(self).categories_spec() == old(self).categories_spec()
            },
            old(self).active_spec() && old(self).category_selected_spec() ==> {
                &&& final(self).active_spec()
                &&& final(self).category_selected_spec()
                &&& final(self).categories_spec()
                    == old(self).categories_spec().update(old(self).index_spec(), final(self).current())
                &&& final(self).current().selected_spec() == !old(self).current().selected_spec()
                &&& final(self).current().name_spec() == old(self).current().name_spec()
                &&& final(self).current().index_spec() == old(self).current().index_spec()
                &&& final(self).current().settings_spec() == old(self).current().settings_spec()
            },
    {
        if self.active {
            if self.category_selected {
                self.categories[self.index].enter();
            } else {
                self.category_selected = true;
            }
        } else {
            self.active = true;
            self.category_selected = false;
        }
    }

    /// Back key: stop adjusting the highlighted setting, or close the open
    /// category, or hide the menu.
    pub fn back(&mut self)
        requires
            old(self).wf(),
        ensures
            final(self).wf(),
            final(self).index_spec() == old(self).index_spec(),
            !old(self).category_selected_spec() ==> {
                &&& !final(self).active_spec()
                &&& !final(self).category_selected_spec()
                &&& final(self).categories_spec() == old(self).categories_spec()
            },
            old(self).category_selected_spec() && !old(self).current().selected_spec() ==> {
                &&& final(self).active_spec() == old(self).active_spec()
                &&& !final(self).category_selected_spec()
                &&& final(self).categories_spec() == old(self).categories_spec()
            },
            old(self).category_selected_spec() && old(self).current().selected_spec() ==> {
                &&& final(self).active_spec() == old(self).active_spec()
                &&& final(self).category_selected_spec()
                &&& final(self).categories_spec()
                    == old(self).categories_spec().update(old(self).index_spec(), final(self).current())
                &&& !final(self).current().selected_spec()
                &&& final(self).current().name_spec() == old(self).current().name_spec()
                &&& final(self).current().index_spec() == old(self).current().index_spec()
                &&& final(self).current().settings_spec() == old(self).current().settings_spec()
            },
    {
        if self.category_selected {
            if self.setting_selected() {
                self.categories[self.index].back();
            } else {
                self.category_selected = false;
            }
        } else {
            self.active = false;
        }
    }
}

} // verus!
