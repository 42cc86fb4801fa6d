//! Key combinations such as `Super+Shift+Q`, and the table that maps them to actions.
use vstd::prelude::*;

use crate::text::{
    chars_of, first_index, is_white_space, join3, lower, lower_char, lower_chars, same_chars,
    split, split_chars, string_of, text_eq, trim, trim_chars, trim_end, trim_start, views,
};

verus! {

#[derive(Debug, Clone, Copy, PartialEq, Eq, Hash, Structural)]
pub struct Modifiers {
    pub super_: bool,
    pub shift: bool,
    pub ctrl: bool,
    pub alt: bool,
}

/// No modifier held.
pub open spec fn no_modifiers() -> Modifiers {
    Modifiers { super_: false, shift: false, ctrl: false, alt: false }
}

impl Default for Modifiers {
    fn default() -> (r: Modifiers)
        ensures
            r == no_modifiers(),
    {
        Modifiers { super_: false, shift: false, ctrl: false, alt: false }
    }
}

/// A key with the modifiers that go with it. The key's name is in lower case.
#[derive(Debug, Clone, PartialEq, Eq, Hash)]
pub struct KeyCombo {
    pub modifiers: Modifiers,
    pub key_name: String,
}

/// Why a text is no key combination.
#[derive(Debug, Clone, PartialEq, Eq)]
pub struct ParseError(pub String);

impl ParseError {
    /// The error as a sentence.
    pub fn message(&self) -> (r: String)
        ensures
            r@ == "invalid key combo: "@ + self.0@,
    {
        crate::text::join2("invalid key combo: ", self.0.as_str())
    }
}

pub open spec fn names_super(s: Seq<char>) -> bool {
    s == "super"@ || s == "mod4"@ || s == "win"@ || s == "logo"@ || s == "cmd"@
}

pub open spec fn names_shift(s: Seq<char>) -> bool {
    s == "shift"@
}

pub open spec fn names_ctrl(s: Seq<char>) -> bool {
    s == "ctrl"@ || s == "control"@
}

pub open spec fn names_alt(s: Seq<char>) -> bool {
    s == "alt"@ || s == "mod1"@ || s == "meta"@
}

pub open spec fn names_modifier(s: Seq<char>) -> bool {
    names_super(s) || names_shift(s) || names_ctrl(s) || names_alt(s)
}

/// The modifiers with the one that `s` names added.
pub open spec fn with_modifier(m: Modifiers, s: Seq<char>) -> Modifiers {
    if names_super(s) {
        Modifiers { super_: true, ..m }
    } else if names_shift(s) {
        Modifiers { shift: true, ..m }
    } else if names_ctrl(s) {
        Modifiers { ctrl: true, ..m }
    } else if names_alt(s) {
        Modifiers { alt: true, ..m }
    } else {
        m
    }
}

/// The modifiers that the first `n` parts name, or the index of the first part
/// that names none.
pub open spec fn modifiers_of(parts: Seq<Seq<char>>, n: nat) -> Result<Modifiers, nat>
    decreases n,
{
    if n == 0 {
        Ok(no_modifiers())
    } else {
        let k = (n - 1) as nat;
        match modifiers_of(parts, k) {
            Err(i) => Err(i),
            Ok(m) => if names_modifier(lower(parts[k as int])) {
                Ok(with_modifier(m, lower(parts[k as int])))
            } else {
                Err(k)
            },
        }
    }
}

/// The parts of a combination: what stands between the `+` signs, trimmed.
pub open spec fn parts_of(s: Seq<char>) -> Seq<Seq<char>> {
    split(trim(s), '+').map_values(|p: Seq<char>| trim(p))
}

pub open spec fn has_empty_part(parts: Seq<Seq<char>>) -> bool {
    exists|i: int| 0 <= i < parts.len() && (#[trigger] parts[i]).len() == 0
}

/// What a text means as a key combination: modifiers and key name, or the reason
/// why it is none.
pub open spec fn combo_of(s: Seq<char>) -> Result<(Modifiers, Seq<char>), Seq<char>> {
    let parts = parts_of(s);
    if trim(s).len() == 0 {
        Err("empty combo string"@)
    } else if has_empty_part(parts) {
        Err("empty segment in '"@ + s + "' (stray '+', or leading/trailing '+')"@)
    } else {
        match modifiers_of(parts, (parts.len() - 1) as nat) {
            Err(i) => Err(
                "unrecognized modifier '"@ + lower(parts[i as int]) + "' in '"@ + s + "'"@,
            ),
            Ok(m) => Ok((m, lower(parts.last()))),
        }
    }
}

fn add_modifier(m: Modifiers, name: &str) -> (r: Option<Modifiers>)
    ensures
        r == (if names_modifier(name@) {
            Some(with_modifier(m, name@))
        } else {
            None
        }),
{
    if text_eq(name, "super") || text_eq(name, "mod4") || text_eq(name, "win") || text_eq(
        name,
        "logo",
    ) || text_eq(name, "cmd") {
        Some(Modifiers { super_: true, ..m })
    } else if text_eq(name, "shift") {
        Some(Modifiers { shift: true, ..m })
    } else if text_eq(name, "ctrl") || text_eq(name, "control") {
        Some(Modifiers { ctrl: true, ..m })
    } else if text_eq(name, "alt") || text_eq(name, "mod1") || text_eq(name, "meta") {
        Some(Modifiers { alt: true, ..m })
    } else {
        None
    }
}

proof fn lemma_split_not_empty(s: Seq<char>, c: char)
    ensures
        split(s, c).len() > 0,
{
}

proof fn lemma_first_bad_modifier(parts: Seq<Seq<char>>, i: nat, n: nat)
    requires
        i <= n,
        modifiers_of(parts, i) is Err,
    ensures
        modifiers_of(parts, n) == modifiers_of(parts, i),
    decreases n - i,
{
    if i < n {
        lemma_first_bad_modifier(parts, i, (n - 1) as nat);
    }
}

/// Reads a combination such as `Super+Shift+Q`. Case and the white space around
/// the parts do not matter; the last part is the key, the others are modifiers.
pub fn parse_combo(s: &str) -> (r: Result<KeyCombo, ParseError>)
    ensures
        match r {
            Ok(combo) => combo_of(s@) == Ok::<(Modifiers, Seq<char>), Seq<char>>(
                (combo.modifiers, combo.key_name@),
            ),
            Err(e) => combo_of(s@) == Err::<(Modifiers, Seq<char>), Seq<char>>(e.0@),
        },
{
    let all = chars_of(s);
    let trimmed = trim_chars(&all);
    if trimmed.len() == 0 {
        return Err(ParseError(String::from_str("empty combo string")));
    }
    let raw = split_chars(&trimmed, '+');
    let mut parts: Vec<Vec<char>> = Vec::new();
    let mut i: usize = 0;
    while i < raw.len()
        invariant
            i <= raw.len(),
            views(raw@) == split(trim(s@), '+'),
            parts.len() == i,
            forall|k: int| 0 <= k < i ==> (#[trigger] parts@[k])@ == trim(raw@[k]@),
            forall|k: int| 0 <= k < i ==> (#[trigger] parts@[k])@.len() > 0,
            trim(s@).len() > 0,
        decreases raw.len() - i,
    {
        let p = trim_chars(&raw[i]);
        if p.len() == 0 {
            proof {
                assert(views(raw@)[i as int] == raw@[i as int]@);
                assert(parts_of(s@)[i as int].len() == 0);
                assert(has_empty_part(parts_of(s@)));
            }
            return Err(
                ParseError(
                    join3(
                        "empty segment in '",
                        s,
                        "' (stray '+', or leading/trailing '+')",
                    ),
                ),
            );
        }
        parts.push(p);
        i = i + 1;
    }
    let ghost model = parts_of(s@);
    proof {
        assert(model.len() == parts.len());
        assert forall|k: int| 0 <= k < parts.len() implies model[k] == (#[trigger] parts@[k])@ by {
            assert(views(raw@)[k] == raw@[k]@);
        }
        assert(!has_empty_part(model)) by {
            assert forall|k: int| 0 <= k < model.len() implies (#[trigger] model[k]).len() > 0 by {
                assert(parts@[k]@.len() > 0);
            }
        }
    }
    let count: usize = parts.len() - 1;
    let mut modifiers = Modifiers { super_: false, shift: false, ctrl: false, alt: false };
    let mut j: usize = 0;
    while j < count
        invariant
            j <= count,
            count == parts.len() - 1,
            model == parts_of(s@),
            model.len() == parts.len(),
            forall|k: int| 0 <= k < parts.len() ==> model[k] == (#[trigger] parts@[k])@,
            !has_empty_part(model),
            trim(s@).len() > 0,
            modifiers_of(model, j as nat) == Ok::<Modifiers, nat>(modifiers),
        decreases count - j,
    {
        let name = string_of(&lower_chars(&parts[j]));
        assert(name@ == lower(model[j as int]));
        match add_modifier(modifiers, name.as_str()) {
            Some(m) => {
                modifiers = m;
            },
            None => {
                proof {
                    assert(modifiers_of(model, (j + 1) as nat) == Err::<Modifiers, nat>(j as nat));
                    lemma_first_bad_modifier(model, (j + 1) as nat, count as nat);
                }
                let mut text = join3("unrecognized modifier '", name.as_str(), "' in '");
                text.append(s);
                text.append("'");
                return Err(ParseError(text));
            },
        }
        j = j + 1;
    }
    let key_name = string_of(&lower_chars(&parts[count]));
    Ok(KeyCombo { modifiers, key_name })
}

/// The key under which a combination is kept.
pub open spec fn combo_key(e: (KeyCombo, String)) -> (Modifiers, Seq<char>) {
    (e.0.modifiers, e.0.key_name@)
}

/// The table that a list of entries stands for.
pub open spec fn table(s: Seq<(KeyCombo, String)>) -> Map<(Modifiers, Seq<char>), Seq<char>>
    decreases s.len(),
{
    if s.len() == 0 {
        Map::empty()
    } else {
        table(s.drop_last()).insert(combo_key(s.last()), s.last().1@)
    }
}

pub open spec fn distinct(s: Seq<(KeyCombo, String)>) -> bool {
    forall|i: int, j: int|
        0 <= i < j < s.len() ==> combo_key(#[trigger] s[i]) != combo_key(#[trigger] s[j])
}

proof fn lemma_table_keys(s: Seq<(KeyCombo, String)>, k: (Modifiers, Seq<char>))
    ensures
        table(s).contains_key(k) <==> exists|i: int|
            0 <= i < s.len() && combo_key(#[trigger] s[i]) == k,
    decreases s.len(),
{
    if s.len() > 0 {
        let t = s.drop_last();
        lemma_table_keys(t, k);
        if combo_key(s.last()) == k {
            assert(combo_key(s[s.len() - 1]) == k);
        } else {
            if table(t).contains_key(k) {
                let i = choose|i: int| 0 <= i < t.len() && combo_key(#[trigger] t[i]) == k;
                assert(combo_key(s[i]) == k);
            }
            if exists|i: int| 0 <= i < s.len() && combo_key(#[trigger] s[i]) == k {
                let i = choose|i: int| 0 <= i < s.len() && combo_key(#[trigger] s[i]) == k;
                assert(combo_key(t[i]) == k);
            }
        }
    }
}

proof fn lemma_table_value(s: Seq<(KeyCombo, String)>, i: int)
    requires
        distinct(s),
        0 <= i < s.len(),
    ensures
        table(s).contains_key(combo_key(s[i])),
        table(s)[combo_key(s[i])] == s[i].1@,
    decreases s.len(),
{
    if i < s.len() - 1 {
        let t = s.drop_last();
        lemma_table_value(t, i);
        assert(t[i] == s[i]);
        assert(combo_key(s[i]) != combo_key(s[s.len() - 1]));
    }
}

proof fn lemma_table_len(s: Seq<(KeyCombo, String)>)
    requires
        distinct(s),
    ensures
        table(s).dom().finite(),
        table(s).dom().len() == s.len(),
    decreases s.len(),
{
    if s.len() == 0 {
        assert(table(s).dom() =~= Set::empty());
    } else {
        let t = s.drop_last();
        lemma_table_len(t);
        lemma_table_keys(t, combo_key(s.last()));
        if table(t).contains_key(combo_key(s.last())) {
            let i = choose|i: int| 0 <= i < t.len() && combo_key(#[trigger] t[i]) == combo_key(
                s.last(),
            );
            assert(combo_key(s[i]) == combo_key(s[s.len() - 1]));
        }
        assert(table(s).dom() =~= table(t).dom().insert(combo_key(s.last())));
    }
}

proof fn lemma_table_update(s: Seq<(KeyCombo, String)>, k: int, e: (KeyCombo, String))
    requires
        distinct(s),
        0 <= k < s.len(),
        combo_key(e) == combo_key(s[k]),
    ensures
        table(s.update(k, e)) == table(s).insert(combo_key(e), e.1@),
    decreases s.len(),
{
    let u = s.update(k, e);
    if k == s.len() - 1 {
        assert(u.drop_last() =~= s.drop_last());
        assert(table(u) =~= table(s).insert(combo_key(e), e.1@));
    } else {
        let t = s.drop_last();
        lemma_table_update(t, k, e);
        assert(u.drop_last() =~= t.update(k, e));
        assert(u.last() == s.last());
        assert(combo_key(s[k]) != combo_key(s[s.len() - 1]));
        assert(table(u) =~= table(s).insert(combo_key(e), e.1@));
    }
}

/// The table that a configuration stands for: each action under its combination,
/// the later of two actions with one combination; what is no combination is left
/// out.
pub open spec fn bound(actions: Seq<(String, String)>) -> Map<(Modifiers, Seq<char>), Seq<char>>
    decreases actions.len(),
{
    if actions.len() == 0 {
        Map::empty()
    } else {
        let before = bound(actions.drop_last());
        match combo_of(actions.last().1@) {
            Ok(k) => before.insert(k, actions.last().0@),
            Err(_) => before,
        }
    }
}

/// The actions whose text is no combination, each with the reason.
pub open spec fn rejected(actions: Seq<(String, String)>) -> Seq<(Seq<char>, Seq<char>)>
    decreases actions.len(),
{
    if actions.len() == 0 {
        Seq::empty()
    } else {
        let before = rejected(actions.drop_last());
        match combo_of(actions.last().1@) {
            Ok(_) => before,
            Err(e) => before.push((actions.last().0@, e)),
        }
    }
}

pub open spec fn error_views(e: Seq<(String, ParseError)>) -> Seq<(Seq<char>, Seq<char>)> {
    e.map_values(|p: (String, ParseError)| (p.0@, p.1.0@))
}

fn find_combo(entries: &Vec<(KeyCombo, String)>, modifiers: Modifiers, key: &Vec<char>) -> (r:
    Option<usize>)
    ensures
        match r {
            Some(i) => i < entries.len() && combo_key(entries@[i as int]) == (modifiers, key@),
            None => forall|i: int|
                0 <= i < entries.len() ==> combo_key(#[trigger] entries@[i]) != (modifiers, key@),
        },
{
    let mut i: usize = 0;
    while i < entries.len()
        invariant
            i <= entries.len(),
            forall|k: int|
                0 <= k < i ==> combo_key(#[trigger] entries@[k]) != (modifiers, key@),
        decreases entries.len() - i,
    {
        let name = chars_of(entries[i].0.key_name.as_str());
        if entries[i].0.modifiers == modifiers && same_chars(&name, key) {
            return Some(i);
        }
        i = i + 1;
    }
    None
}

/// Key combinations with the action that each starts.
#[derive(Debug)]
pub struct Keybindings {
    by_combo: Vec<(KeyCombo, String)>,
}

impl View for Keybindings {
    type V = Map<(Modifiers, Seq<char>), Seq<char>>;

    closed spec fn view(&self) -> Map<(Modifiers, Seq<char>), Seq<char>> {
        table(self.by_combo@)
    }
}

impl Keybindings {
    #[verifier::type_invariant]
    spec fn well_formed(self) -> bool {
        distinct(self.by_combo@)
    }

    /// The table of a configuration, given as its actions and their combinations,
    /// and the entries that are no combination.
    pub fn from_config(actions: &Vec<(String, String)>) -> (r: (Self, Vec<(String, ParseError)>))
        ensures
            r.0@ == bound(actions@),
            error_views(r.1@) == rejected(actions@),
    {
        let mut entries: Vec<(KeyCombo, String)> = Vec::new();
        let mut errors: Vec<(String, ParseError)> = Vec::new();
        let mut i: usize = 0;
        assert(actions@.take(0).len() == 0);
        assert(error_views(errors@) =~= Seq::empty());
        while i < actions.len()
            invariant
                i <= actions.len(),
                distinct(entries@),
                table(entries@) == bound(actions@.take(i as int)),
                error_views(errors@) == rejected(actions@.take(i as int)),
            decreases actions.len() - i,
        {
            let ghost next = actions@.take(i as int + 1);
            proof {
                assert(next.drop_last() =~= actions@.take(i as int));
                assert(next.last() == actions@[i as int]);
            }
            let action = actions[i].0.clone();
            match parse_combo(actions[i].1.as_str()) {
                Ok(combo) => {
                    let key = chars_of(combo.key_name.as_str());
                    let ghost before = entries@;
                    match find_combo(&entries, combo.modifiers, &key) {
                        Some(k) => {
                            let ghost e = (combo, action);
                            entries[k] = (combo, action);
                            proof {
                                assert(entries@ =~= before.update(k as int, e));
                                lemma_table_update(before, k as int, e);
                                assert forall|a: int, b: int| 0 <= a < b < entries@.len() implies
                                    combo_key(#[trigger] entries@[a]) != combo_key(
                                    #[trigger] entries@[b],
                                ) by {
                                    assert(combo_key(before[a]) != combo_key(before[b]));
                                }
                            }
                        },
                        None => {
                            entries.push((combo, action));
                            proof {
                                assert(entries@.drop_last() =~= before);
                                assert forall|a: int, b: int| 0 <= a < b < entries@.len() implies
                                    combo_key(#[trigger] entries@[a]) != combo_key(
                                    #[trigger] entries@[b],
                                ) by {
                                    assert(entries@[a] == before[a]);
                                    if b < before.len() {
                                        assert(entries@[b] == before[b]);
                                    }
                                }
                            }
                        },
                    }
                },
                Err(e) => {
                    let ghost before = error_views(errors@);
                    errors.push((action, e));
                    assert(error_views(errors@) =~= before.push((action@, e.0@)));
                },
            }
            i = i + 1;
        }
        assert(actions@.take(actions.len() as int) =~= actions@);
        (Keybindings { by_combo: entries }, errors)
    }

    /// The action bound to a key pressed with exactly these modifiers.
    pub fn action_for(&self, modifiers: Modifiers, key_name: &str) -> (r: Option<&str>)
        ensures
            match r {
                Some(action) => self@.contains_key((modifiers, lower(key_name@)))
                    && self@[(modifiers, lower(key_name@))] == action@,
                None => !self@.contains_key((modifiers, lower(key_name@))),
            },
    {
        proof {
            use_type_invariant(self);
        }
        let key = lower_chars(&chars_of(key_name));
        match find_combo(&self.by_combo, modifiers, &key) {
            Some(i) => {
                proof {
                    lemma_table_value(self.by_combo@, i as int);
                }
                Some(self.by_combo[i].1.as_str())
            },
            None => {
                proof {
                    lemma_table_keys(self.by_combo@, (modifiers, key@));
                }
                None
            },
        }
    }

    pub fn is_empty(&self) -> (r: bool)
        ensures
            r == (self@.dom().len() == 0),
            self@.dom().finite(),
    {
        proof {
            use_type_invariant(self);
            lemma_table_len(self.by_combo@);
        }
        self.by_combo.len() == 0
    }

    pub fn len(&self) -> (r: usize)
        ensures
            r == self@.dom().len(),
            self@.dom().finite(),
    {
        proof {
            use_type_invariant(self);
            lemma_table_len(self.by_combo@);
        }
        self.by_combo.len()
    }
}

impl Default for Keybindings {
    fn default() -> (r: Keybindings)
        ensures
            r@ == Map::<(Modifiers, Seq<char>), Seq<char>>::empty(),
    {
        Keybindings { by_combo: Vec::new() }
    }
}

/// The first `n` parts are taken as modifiers exactly where each names one, and
/// then a modifier is set exactly where some part names it: neither order nor
/// repetition matters.
pub proof fn law_modifiers_are_a_set(parts: Seq<Seq<char>>, n: nat)
    requires
        n <= parts.len(),
    ensures
        modifiers_of(parts, n) is Ok <==> forall|i: int|
            0 <= i < n ==> names_modifier(lower(#[trigger] parts[i])),
        modifiers_of(parts, n) matches Ok(m) ==> {
            &&& m.super_ <==> exists|i: int| 0 <= i < n && names_super(lower(#[trigger] parts[i]))
            &&& m.shift <==> exists|i: int| 0 <= i < n && names_shift(lower(#[trigger] parts[i]))
            &&& m.ctrl <==> exists|i: int| 0 <= i < n && names_ctrl(lower(#[trigger] parts[i]))
            &&& m.alt <==> exists|i: int| 0 <= i < n && names_alt(lower(#[trigger] parts[i]))
        },
    decreases n,
{
    if n > 0 {
        let k = (n - 1) as nat;
        law_modifiers_are_a_set(parts, k);
        lemma_names_are_distinct(lower(parts[k as int]));
        if modifiers_of(parts, n) is Ok {
            assert(names_modifier(lower(parts[k as int])));
            let before = modifiers_of(parts, k)->Ok_0;
            let m = modifiers_of(parts, n)->Ok_0;
            let p = lower(parts[k as int]);
            assert(m.super_ <==> before.super_ || names_super(p));
            assert(m.shift <==> before.shift || names_shift(p));
            assert(m.ctrl <==> before.ctrl || names_ctrl(p));
            assert(m.alt <==> before.alt || names_alt(p));
            if before.super_ {
                let i = choose|i: int| 0 <= i < k && names_super(lower(#[trigger] parts[i]));
                assert(0 <= i < n && names_super(lower(parts[i])));
            }
            if before.shift {
                let i = choose|i: int| 0 <= i < k && names_shift(lower(#[trigger] parts[i]));
                assert(0 <= i < n && names_shift(lower(parts[i])));
            }
            if before.ctrl {
                let i = choose|i: int| 0 <= i < k && names_ctrl(lower(#[trigger] parts[i]));
                assert(0 <= i < n && names_ctrl(lower(parts[i])));
            }
            if before.alt {
                let i = choose|i: int| 0 <= i < k && names_alt(lower(#[trigger] parts[i]));
                assert(0 <= i < n && names_alt(lower(parts[i])));
            }
        }
    }
}

proof fn lemma_names_are_distinct(s: Seq<char>)
    ensures
        names_super(s) ==> !names_shift(s) && !names_ctrl(s) && !names_alt(s),
        names_shift(s) ==> !names_ctrl(s) && !names_alt(s),
        names_ctrl(s) ==> !names_alt(s),
{
    reveal_strlit("super");
    reveal_strlit("mod4");
    reveal_strlit("win");
    reveal_strlit("logo");
    reveal_strlit("cmd");
    reveal_strlit("shift");
    reveal_strlit("ctrl");
    reveal_strlit("control");
    reveal_strlit("alt");
    reveal_strlit("mod1");
    reveal_strlit("meta");
    assert("super"@[1] == 'u' && "mod4"@[0] == 'm' && "win"@[0] == 'w' && "logo"@[0] == 'l'
        && "cmd"@[1] == 'm');
    assert("shift"@[0] == 's' && "shift"@[1] == 'h');
    assert("ctrl"@[0] == 'c' && "ctrl"@[1] == 't' && "control"@[1] == 'o' && "control"@[0] == 'c');
    assert("alt"@[0] == 'a' && "mod1"@[3] == '1' && "mod4"@[3] == '4' && "meta"@[1] == 'e'
        && "mod4"@[1] == 'o' && "mod1"@[0] == 'm' && "meta"@[0] == 'm' && "super"@[0] == 's'
        && "cmd"@[0] == 'c');
}

proof fn lemma_trim_start_lower(s: Seq<char>)
    ensures
        trim_start(lower(s)) == lower(trim_start(s)),
    decreases s.len(),
{
    if s.len() > 0 {
        assert(lower(s).skip(1) =~= lower(s.skip(1)));
        assert(lower(s)[0] == lower_char(s[0]));
        assert(is_white_space(lower_char(s[0])) == is_white_space(s[0]));
        lemma_trim_start_lower(s.skip(1));
    } else {
        assert(lower(s) =~= s);
    }
}

proof fn lemma_trim_end_lower(s: Seq<char>)
    ensures
        trim_end(lower(s)) == lower(trim_end(s)),
    decreases s.len(),
{
    if s.len() > 0 {
        assert(lower(s).drop_last() =~= lower(s.drop_last()));
        assert(lower(s).last() == lower_char(s.last()));
        assert(is_white_space(lower_char(s.last())) == is_white_space(s.last()));
        lemma_trim_end_lower(s.drop_last());
    } else {
        assert(lower(s) =~= s);
    }
}

proof fn lemma_trim_lower(s: Seq<char>)
    ensures
        trim(lower(s)) == lower(trim(s)),
{
    lemma_trim_start_lower(s);
    lemma_trim_end_lower(trim_start(s));
}

proof fn lemma_first_index_lower(s: Seq<char>)
    ensures
        first_index(lower(s), '+') == first_index(s, '+'),
    decreases s.len(),
{
    if s.len() > 0 {
        assert(lower(s).skip(1) =~= lower(s.skip(1)));
        assert(lower(s)[0] == lower_char(s[0]));
        lemma_first_index_lower(s.skip(1));
    }
}

proof fn lemma_split_lower(s: Seq<char>)
    ensures
        split(lower(s), '+').len() == split(s, '+').len(),
        forall|i: int|
            0 <= i < split(s, '+').len() ==> #[trigger] split(lower(s), '+')[i] == lower(
                split(s, '+')[i],
            ),
    decreases s.len(),
{
    lemma_first_index_lower(s);
    let i = first_index(s, '+') as int;
    if i < s.len() {
        assert(lower(s).take(i) =~= lower(s.take(i)));
        assert(lower(s).skip(i + 1) =~= lower(s.skip(i + 1)));
        lemma_split_lower(s.skip(i + 1));
    }
}

/// Case does not matter: a combination and its lower-case form mean the same.
pub proof fn law_case_does_not_matter(s: Seq<char>)
    ensures
        combo_of(lower(s)) is Ok <==> combo_of(s) is Ok,
        combo_of(s) is Ok ==> combo_of(lower(s)) == combo_of(s),
{
    lemma_trim_lower(s);
    lemma_split_lower(trim(s));
    let p = parts_of(s);
    let q = parts_of(lower(s));
    assert(p.len() == q.len());
    assert forall|i: int| 0 <= i < p.len() implies #[trigger] q[i] == lower(p[i]) by {
        lemma_trim_lower(split(trim(s), '+')[i]);
    }
    assert forall|i: int| 0 <= i < p.len() implies (#[trigger] p[i]).len() == q[i].len() by {}
    if has_empty_part(p) {
        let i = choose|i: int| 0 <= i < p.len() && (#[trigger] p[i]).len() == 0;
        assert(q[i].len() == 0);
    }
    if has_empty_part(q) {
        let i = choose|i: int| 0 <= i < q.len() && (#[trigger] q[i]).len() == 0;
        assert(p[i].len() == 0);
    }
    if p.len() > 0 {
        lemma_modifiers_lower(p, q, (p.len() - 1) as nat);
        crate::text::law_lower_idempotent(p.last());
    }
    lemma_split_not_empty(trim(s), '+');
}

proof fn lemma_modifiers_lower(p: Seq<Seq<char>>, q: Seq<Seq<char>>, n: nat)
    requires
        n <= p.len(),
        p.len() == q.len(),
        forall|i: int| 0 <= i < p.len() ==> #[trigger] q[i] == lower(p[i]),
    ensures
        modifiers_of(p, n) == modifiers_of(q, n),
    decreases n,
{
    if n > 0 {
        lemma_modifiers_lower(p, q, (n - 1) as nat);
        crate::text::law_lower_idempotent(p[n - 1]);
    }
}

/// Trimming the end first, or the start first, comes to the same.
proof fn lemma_trim_ends_commute(s: Seq<char>)
    ensures
        trim_start(trim_end(s)) == trim_end(trim_start(s)),
    decreases s.len(),
{
    if s.len() > 0 {
        if is_white_space(s[0]) {
            let t = s.skip(1);
            lemma_trim_ends_commute(t);
            if is_white_space(s.last()) {
                let u = s.drop_last();
                lemma_trim_ends_commute(u);
                if s.len() > 1 {
                    assert(t.drop_last() =~= u.skip(1));
                    assert(trim_end(t) == trim_end(t.drop_last()));
                    assert(trim_start(u) == trim_start(u.skip(1)));
                    lemma_trim_ends_commute(t.drop_last());
                } else {
                    assert(u =~= Seq::empty());
                    assert(t =~= Seq::empty());
                }
            } else {
                assert(s.len() > 1);
                assert(t.last() == s.last());
            }
        } else if is_white_space(s.last()) {
            let u = s.drop_last();
            lemma_trim_ends_commute(u);
            assert(u[0] == s[0]);
        }
    }
}

/// White space in front of a text, or behind it, is trimmed away.
proof fn lemma_trim_more(s: Seq<char>, w: char)
    requires
        is_white_space(w),
    ensures
        trim(seq![w] + s) == trim(s),
        trim(s + seq![w]) == trim(s),
{
    assert((seq![w] + s).skip(1) =~= s);
    assert((s + seq![w]).drop_last() =~= s);
    lemma_trim_ends_commute(s + seq![w]);
    lemma_trim_ends_commute(s);
    assert(trim_end(s + seq![w]) == trim_end(s));
}

/// What stands between the `+` signs of a text, each trimmed.
pub open spec fn segments(s: Seq<char>) -> Seq<Seq<char>> {
    split(s, '+').map_values(|p: Seq<char>| trim(p))
}

proof fn lemma_segments_step(s: Seq<char>)
    ensures
        ({
            let i = first_index(s, '+') as int;
            segments(s) == (if i >= s.len() {
                seq![trim(s)]
            } else {
                seq![trim(s.take(i))] + segments(s.skip(i + 1))
            })
        }),
{
    let i = first_index(s, '+') as int;
    if i >= s.len() {
        assert(segments(s) =~= seq![trim(s)]);
    } else {
        assert(segments(s) =~= seq![trim(s.take(i))] + segments(s.skip(i + 1)));
    }
}

/// White space that is put beside a `+`, or at one of the two ends, changes no segment.
proof fn lemma_segments_more(s: Seq<char>, k: int, w: char)
    requires
        is_white_space(w),
        0 <= k <= s.len(),
        k == 0 || k == s.len() || s[k - 1] == '+' || s[k] == '+',
    ensures
        segments(s.take(k) + seq![w] + s.skip(k)) == segments(s),
    decreases s.len(),
{
    let t = s.take(k) + seq![w] + s.skip(k);
    let i = first_index(s, '+') as int;
    crate::text::lemma_first_index(s, '+');
    assert(w != '+');
    lemma_segments_step(s);
    lemma_segments_step(t);
    if k <= i {
        assert(k == 0 || k == i);
        let n = i + 1;
        assert forall|j: int| 0 <= j < n implies t[j] != '+' by {
            if j < k {
                assert(t[j] == s[j]);
            } else if j > k {
                assert(t[j] == s[j - 1]);
            }
        }
        if i < s.len() {
            assert(t[n] == s[i]);
        }
        crate::text::lemma_first_index_is(t, '+', n);
        if k == 0 {
            assert(t.take(n) =~= seq![w] + s.take(i));
        } else {
            assert(t.take(n) =~= s.take(i) + seq![w]);
        }
        lemma_trim_more(s.take(i), w);
        if i < s.len() {
            assert(t.skip(n + 1) =~= s.skip(i + 1));
        } else {
            assert(s.take(i) =~= s);
            assert(t.take(n) =~= t);
        }
    } else {
        assert forall|j: int| 0 <= j < i implies t[j] != '+' by {
            assert(t[j] == s[j]);
        }
        assert(t[i] == s[i]);
        crate::text::lemma_first_index_is(t, '+', i);
        assert(t.take(i) =~= s.take(i));
        let r = s.skip(i + 1);
        let q = k - (i + 1);
        assert(q > 0 ==> r[q - 1] == s[k - 1]);
        assert(q < r.len() ==> r[q] == s[k]);
        lemma_segments_more(r, q, w);
        assert(t.skip(i + 1) =~= r.take(q) + seq![w] + r.skip(q));
    }
}

proof fn lemma_segments_drop_first(s: Seq<char>)
    requires
        s.len() > 0,
        is_white_space(s[0]),
    ensures
        segments(s.skip(1)) == segments(s),
{
    let t = s.skip(1);
    lemma_segments_more(t, 0, s[0]);
    assert(t.take(0) + seq![s[0]] + t.skip(0) =~= s);
}

proof fn lemma_segments_drop_last(s: Seq<char>)
    requires
        s.len() > 0,
        is_white_space(s.last()),
    ensures
        segments(s.drop_last()) == segments(s),
{
    let t = s.drop_last();
    lemma_segments_more(t, t.len() as int, s.last());
    assert(t.take(t.len() as int) + seq![s.last()] + t.skip(t.len() as int) =~= s);
}

proof fn lemma_segments_trim_start(s: Seq<char>)
    ensures
        segments(trim_start(s)) == segments(s),
    decreases s.len(),
{
    if s.len() > 0 && is_white_space(s[0]) {
        lemma_segments_drop_first(s);
        lemma_segments_trim_start(s.skip(1));
    }
}

proof fn lemma_segments_trim_end(s: Seq<char>)
    ensures
        segments(trim_end(s)) == segments(s),
    decreases s.len(),
{
    if s.len() > 0 && is_white_space(s.last()) {
        lemma_segments_drop_last(s);
        lemma_segments_trim_end(s.drop_last());
    }
}

/// A combination is read off its segments: it is one where none of them is empty and
/// all but the last name modifiers.
proof fn lemma_combo_of_segments(s: Seq<char>)
    ensures
        parts_of(s) == segments(s),
        segments(s).len() > 0,
        combo_of(s) is Ok <==> !has_empty_part(segments(s)) && modifiers_of(
            segments(s),
            (segments(s).len() - 1) as nat,
        ) is Ok,
        combo_of(s) matches Ok(c) ==> c.0 == modifiers_of(
            segments(s),
            (segments(s).len() - 1) as nat,
        )->Ok_0 && c.1 == lower(segments(s).last()),
{
    lemma_segments_trim_start(s);
    lemma_segments_trim_end(trim_start(s));
    lemma_split_not_empty(trim(s), '+');
    if trim(s).len() == 0 {
        lemma_segments_step(trim(s));
        assert(trim(trim(s)).len() == 0);
        assert(segments(s)[0].len() == 0);
        assert(has_empty_part(segments(s)));
    }
}

/// White space around the parts does not matter: put beside a `+`, or at one of the two
/// ends, it changes nothing.
pub proof fn law_white_space_does_not_matter(s: Seq<char>, k: int, w: char)
    requires
        is_white_space(w),
        0 <= k <= s.len(),
        k == 0 || k == s.len() || s[k - 1] == '+' || s[k] == '+',
    ensures
        combo_of(s.take(k) + seq![w] + s.skip(k)) is Ok <==> combo_of(s) is Ok,
        combo_of(s) is Ok ==> combo_of(s.take(k) + seq![w] + s.skip(k)) == combo_of(s),
{
    lemma_segments_more(s, k, w);
    lemma_combo_of_segments(s);
    lemma_combo_of_segments(s.take(k) + seq![w] + s.skip(k));
}

/// Whether two texts are the same up to case, or name the same modifier.
pub open spec fn same_name(a: Seq<char>, b: Seq<char>) -> bool {
    ||| lower(a) == lower(b)
    ||| names_super(lower(a)) && names_super(lower(b))
    ||| names_shift(lower(a)) && names_shift(lower(b))
    ||| names_ctrl(lower(a)) && names_ctrl(lower(b))
    ||| names_alt(lower(a)) && names_alt(lower(b))
}

/// Whether each of the first segments of `p`, but the last, has a like one in `q`.
pub open spec fn names_found(p: Seq<Seq<char>>, q: Seq<Seq<char>>) -> bool {
    forall|i: int|
        0 <= i < p.len() - 1 ==> exists|j: int|
            0 <= j < q.len() - 1 && same_name(#[trigger] p[i], #[trigger] q[j])
}

proof fn lemma_names_not_empty(s: Seq<char>)
    ensures
        names_modifier(s) ==> s.len() > 0,
{
    reveal_strlit("super");
    reveal_strlit("mod4");
    reveal_strlit("win");
    reveal_strlit("logo");
    reveal_strlit("cmd");
    reveal_strlit("shift");
    reveal_strlit("ctrl");
    reveal_strlit("control");
    reveal_strlit("alt");
    reveal_strlit("mod1");
    reveal_strlit("meta");
}

proof fn lemma_names_carry_over(p: Seq<Seq<char>>, q: Seq<Seq<char>>)
    requires
        p.len() > 0,
        q.len() > 0,
        names_found(p, q),
        lower(p.last()) == lower(q.last()),
        !has_empty_part(q),
        modifiers_of(q, (q.len() - 1) as nat) is Ok,
    ensures
        !has_empty_part(p),
        modifiers_of(p, (p.len() - 1) as nat) is Ok,
        ({
            let m = modifiers_of(p, (p.len() - 1) as nat)->Ok_0;
            let n = modifiers_of(q, (q.len() - 1) as nat)->Ok_0;
            &&& m.super_ ==> n.super_
            &&& m.shift ==> n.shift
            &&& m.ctrl ==> n.ctrl
            &&& m.alt ==> n.alt
        }),
{
    let a = (p.len() - 1) as nat;
    let b = (q.len() - 1) as nat;
    law_modifiers_are_a_set(p, a);
    law_modifiers_are_a_set(q, b);
    assert forall|i: int| 0 <= i < a implies names_modifier(lower(#[trigger] p[i])) && (names_super(
        lower(p[i]),
    ) ==> modifiers_of(q, b)->Ok_0.super_) && (names_shift(lower(p[i])) ==> modifiers_of(
        q,
        b,
    )->Ok_0.shift) && (names_ctrl(lower(p[i])) ==> modifiers_of(q, b)->Ok_0.ctrl) && (names_alt(
        lower(p[i]),
    ) ==> modifiers_of(q, b)->Ok_0.alt) by {
        let j = choose|j: int| 0 <= j < b && same_name(p[i], #[trigger] q[j]);
        assert(names_modifier(lower(q[j])));
        lemma_names_are_distinct(lower(p[i]));
        lemma_names_are_distinct(lower(q[j]));
    }
    assert forall|i: int| 0 <= i < p.len() implies (#[trigger] p[i]).len() > 0 by {
        if i < a {
            assert(names_modifier(lower(p[i])));
            lemma_names_not_empty(lower(p[i]));
            assert(lower(p[i]).len() == p[i].len());
        } else {
            assert(p[i] == p.last());
            assert(lower(p.last()).len() == p.last().len());
            assert(lower(q.last()).len() == q.last().len());
            assert(q[q.len() - 1].len() > 0);
        }
    }
}

/// The spelling does not matter: two texts mean the same combination, or are none, where
/// they have the same key and each modifier of one is a modifier of the other, in
/// whatever order, however often, by whatever alias, and whatever the case of the letters
/// and the white space around the parts.
pub proof fn law_spelling_does_not_matter(s: Seq<char>, t: Seq<char>)
    requires
        names_found(segments(s), segments(t)),
        names_found(segments(t), segments(s)),
        lower(segments(s).last()) == lower(segments(t).last()),
    ensures
        combo_of(s) is Ok <==> combo_of(t) is Ok,
        combo_of(s) is Ok ==> combo_of(s) == combo_of(t),
{
    lemma_combo_of_segments(s);
    lemma_combo_of_segments(t);
    if combo_of(s) is Ok {
        lemma_names_carry_over(segments(t), segments(s));
        lemma_names_carry_over(segments(s), segments(t));
    } else if combo_of(t) is Ok {
        lemma_names_carry_over(segments(s), segments(t));
    }
}

/// An action whose text is no combination is reported with the reason, and stands in
/// the way of no other: the table is that of the rest.
pub proof fn law_malformed_entries_do_not_matter(
    actions: Seq<(String, String)>,
    bad: (String, String),
)
    requires
        combo_of(bad.1@) is Err,
    ensures
        bound(actions.push(bad)) == bound(actions),
        rejected(actions.push(bad)) == rejected(actions).push((bad.0@, combo_of(bad.1@)->Err_0)),
{
    assert(actions.push(bad).drop_last() =~= actions);
}

/// An action whose text is a combination is not reported, and of all that are bound
/// to one combination the last is started.
pub proof fn law_later_binding_wins(actions: Seq<(String, String)>, last: (String, String))
    requires
        combo_of(last.1@) is Ok,
    ensures
        bound(actions.push(last)).contains_key(combo_of(last.1@)->Ok_0),
        bound(actions.push(last))[combo_of(last.1@)->Ok_0] == last.0@,
        rejected(actions.push(last)) == rejected(actions),
{
    assert(actions.push(last).drop_last() =~= actions);
}

} // verus!
